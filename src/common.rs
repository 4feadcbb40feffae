use core::marker::PhantomData;
use vstd::prelude::*;

verus! {

broadcast use vstd::array::group_array_axioms;

pub const NINTENDO_VENDOR_ID: u16 = 1406;

pub const JOYCON_L_BT: u16 = 0x2006;

pub const JOYCON_R_BT: u16 = 0x2007;

pub const PRO_CONTROLLER: u16 = 0x2009;

pub const JOYCON_CHARGING_GRIP: u16 = 0x200e;

/// The product identifiers of the supported controllers.
pub const HID_IDS: [u16; 4] = [JOYCON_L_BT, JOYCON_R_BT, PRO_CONTROLLER, JOYCON_CHARGING_GRIP];

/// The value of two bytes read in little-endian order.
pub open spec fn le_u16(b0: u8, b1: u8) -> u16 {
    (b0 as int + 256 * b1 as int) as u16
}

/// The encoding of `u`: its low byte, then its high byte.
pub open spec fn u16le_of(u: u16) -> U16LE {
    U16LE([(u % 0x100) as u8, (u / 0x100) as u8])
}

/// A `u16` stored as two bytes, least significant first.
#[derive(Copy, Clone, Debug)]
pub struct U16LE(pub [u8; 2]);

impl PartialEq for U16LE {
    fn eq(&self, o: &U16LE) -> (r: bool) {
        let r = self.0[0] == o.0[0] && self.0[1] == o.0[1];
        proof {
            assert(r == (self.0 =~= o.0));
        }
        r
    }
}

impl vstd::std_specs::cmp::PartialEqSpecImpl for U16LE {
    open spec fn obeys_eq_spec() -> bool {
        true
    }

    open spec fn eq_spec(&self, o: &U16LE) -> bool {
        self.0 == o.0
    }
}

impl Eq for U16LE {

}

impl View for U16LE {
    type V = u16;

    open spec fn view(&self) -> u16 {
        le_u16(self.0[0], self.0[1])
    }
}

impl U16LE {
    /// The two bytes as they stand on the wire.
    pub fn to_bytes(&self) -> (r: [u8; 2])
        ensures
            r == self.0,
    {
        self.0
    }
}

impl From<u16> for U16LE {
    fn from(u: u16) -> (r: U16LE) {
        let lo: u8 = (u & 0xff) as u8;
        let hi: u8 = (u >> 8) as u8;
        assert(lo == u % 0x100 && hi == u / 0x100) by (bit_vector)
            requires
                lo == (u & 0xff) as u8,
                hi == (u >> 8) as u8,
        ;
        U16LE([lo, hi])
    }
}

impl vstd::std_specs::convert::FromSpecImpl<u16> for U16LE {
    open spec fn obeys_from_spec() -> bool {
        true
    }

    open spec fn from_spec(u: u16) -> U16LE {
        u16le_of(u)
    }
}

impl From<U16LE> for u16 {
    fn from(u: U16LE) -> (r: u16) {
        let b0: u8 = u.0[0];
        let b1: u8 = u.0[1];
        assert((b0 as u16 | (b1 as u16) << 8) == b0 as int + 256 * b1 as int) by (bit_vector);
        b0 as u16 | (b1 as u16) << 8
    }
}

impl vstd::std_specs::convert::FromSpecImpl<U16LE> for u16 {
    open spec fn obeys_from_spec() -> bool {
        true
    }

    open spec fn from_spec(u: U16LE) -> u16 {
        u@
    }
}

/// The value of two bytes read in little-endian order as a two's complement number.
pub open spec fn le_i16(b0: u8, b1: u8) -> i16 {
    (b0 as int + 256 * b1 as int) as i16
}

/// The encoding of `v`: the low byte of its two's complement form, then the high byte.
pub open spec fn i16le_of(v: i16) -> I16LE {
    I16LE([(v as u16 % 0x100) as u8, (v as u16 / 0x100) as u8])
}

/// An `i16` stored as two bytes, least significant first.
#[derive(Copy, Clone, Debug)]
pub struct I16LE(pub [u8; 2]);

impl View for I16LE {
    type V = i16;

    open spec fn view(&self) -> i16 {
        le_i16(self.0[0], self.0[1])
    }
}

impl PartialEq for I16LE {
    fn eq(&self, o: &I16LE) -> (r: bool) {
        let r = self.0[0] == o.0[0] && self.0[1] == o.0[1];
        proof {
            assert(r == (self.0 =~= o.0));
        }
        r
    }
}

impl vstd::std_specs::cmp::PartialEqSpecImpl for I16LE {
    open spec fn obeys_eq_spec() -> bool {
        true
    }

    open spec fn eq_spec(&self, o: &I16LE) -> bool {
        self.0 == o.0
    }
}

impl Eq for I16LE {

}

impl From<i16> for I16LE {
    fn from(v: i16) -> (r: I16LE) {
        let u: u16 = v as u16;
        let lo: u8 = (u & 0xff) as u8;
        let hi: u8 = (u >> 8) as u8;
        assert(lo == u % 0x100 && hi == u / 0x100) by (bit_vector)
            requires
                lo == (u & 0xff) as u8,
                hi == (u >> 8) as u8,
        ;
        I16LE([lo, hi])
    }
}

impl vstd::std_specs::convert::FromSpecImpl<i16> for I16LE {
    open spec fn obeys_from_spec() -> bool {
        true
    }

    open spec fn from_spec(v: i16) -> I16LE {
        i16le_of(v)
    }
}

impl From<I16LE> for i16 {
    fn from(v: I16LE) -> (r: i16) {
        let b0: u8 = v.0[0];
        let b1: u8 = v.0[1];
        let u: u16 = b0 as u16 | (b1 as u16) << 8;
        assert(u == b0 as int + 256 * b1 as int) by (bit_vector)
            requires
                u == (b0 as u16 | (b1 as u16) << 8),
        ;
        u as i16
    }
}

impl vstd::std_specs::convert::FromSpecImpl<I16LE> for i16 {
    open spec fn obeys_from_spec() -> bool {
        true
    }

    open spec fn from_spec(v: I16LE) -> i16 {
        v@
    }
}

/// The value of four bytes read in little-endian order.
pub open spec fn le_u32(b0: u8, b1: u8, b2: u8, b3: u8) -> u32 {
    (b0 as int + 0x100 * b1 as int + 0x1_0000 * b2 as int + 0x100_0000 * b3 as int) as u32
}

/// The encoding of `u`: its four bytes, least significant first.
pub open spec fn u32le_of(u: u32) -> U32LE {
    U32LE(
        [
            (u % 0x100) as u8,
            (u / 0x100 % 0x100) as u8,
            (u / 0x1_0000 % 0x100) as u8,
            (u / 0x100_0000) as u8,
        ],
    )
}

/// A `u32` stored as four bytes, least significant first.
#[derive(Copy, Clone, Debug)]
pub struct U32LE(pub [u8; 4]);

impl View for U32LE {
    type V = u32;

    open spec fn view(&self) -> u32 {
        le_u32(self.0[0], self.0[1], self.0[2], self.0[3])
    }
}

impl U32LE {
    /// The four bytes as they stand on the wire.
    pub fn to_bytes(&self) -> (r: [u8; 4])
        ensures
            r == self.0,
    {
        self.0
    }
}

impl PartialEq for U32LE {
    fn eq(&self, o: &U32LE) -> (r: bool) {
        let r = self.0[0] == o.0[0] && self.0[1] == o.0[1] && self.0[2] == o.0[2] && self.0[3]
            == o.0[3];
        proof {
            assert(r == (self.0 =~= o.0));
        }
        r
    }
}

impl vstd::std_specs::cmp::PartialEqSpecImpl for U32LE {
    open spec fn obeys_eq_spec() -> bool {
        true
    }

    open spec fn eq_spec(&self, o: &U32LE) -> bool {
        self.0 == o.0
    }
}

impl Eq for U32LE {

}

impl From<u32> for U32LE {
    fn from(u: u32) -> (r: U32LE) {
        let b0: u8 = (u & 0xff) as u8;
        let b1: u8 = ((u >> 8) & 0xff) as u8;
        let b2: u8 = ((u >> 16) & 0xff) as u8;
        let b3: u8 = (u >> 24) as u8;
        assert(b0 == u % 0x100 && b1 == u / 0x100 % 0x100 && b2 == u / 0x1_0000 % 0x100 && b3
            == u / 0x100_0000) by (bit_vector)
            requires
                b0 == (u & 0xff) as u8,
                b1 == ((u >> 8) & 0xff) as u8,
                b2 == ((u >> 16) & 0xff) as u8,
                b3 == (u >> 24) as u8,
        ;
        U32LE([b0, b1, b2, b3])
    }
}

impl vstd::std_specs::convert::FromSpecImpl<u32> for U32LE {
    open spec fn obeys_from_spec() -> bool {
        true
    }

    open spec fn from_spec(u: u32) -> U32LE {
        u32le_of(u)
    }
}

impl From<U32LE> for u32 {
    fn from(u: U32LE) -> (r: u32) {
        let b0: u8 = u.0[0];
        let b1: u8 = u.0[1];
        let b2: u8 = u.0[2];
        let b3: u8 = u.0[3];
        let r: u32 = b0 as u32 | (b1 as u32) << 8 | (b2 as u32) << 16 | (b3 as u32) << 24;
        assert(r == b0 as int + 0x100 * b1 as int + 0x1_0000 * b2 as int + 0x100_0000 * b3 as int)
            by (bit_vector)
            requires
                r == (b0 as u32 | (b1 as u32) << 8 | (b2 as u32) << 16 | (b3 as u32) << 24),
        ;
        r
    }
}

impl vstd::std_specs::convert::FromSpecImpl<U32LE> for u32 {
    open spec fn obeys_from_spec() -> bool {
        true
    }

    open spec fn from_spec(u: U32LE) -> u32 {
        u@
    }
}

/// Encoding a `u16` and decoding the result gives the value back.
pub proof fn lemma_u16le_round_trip(v: u16)
    ensures
        u16le_of(v)@ == v,
{
    assert(((v % 0x100) as u8 as int + 0x100 * ((v / 0x100) as u8) as int) as u16 == v)
        by (bit_vector);
}

/// Decoding two bytes and encoding the value gives the bytes back.
pub proof fn lemma_u16le_bytes_round_trip(w: U16LE)
    ensures
        u16le_of(w@) == w,
{
    let c0 = w.0[0];
    let c1 = w.0[1];
    let x = (c0 as int + 0x100 * c1 as int) as u16;
    assert(x == (c0 as int + 0x100 * c1 as int) as u16 ==> (x % 0x100) as u8 == c0 && (x
        / 0x100) as u8 == c1) by (bit_vector);
    assert(u16le_of(w@).0 =~= w.0);
}

/// Encoding an `i16` and decoding the result gives the value back.
pub proof fn lemma_i16le_round_trip(v: i16)
    ensures
        i16le_of(v)@ == v,
{
    assert(((v as u16 % 0x100) as u8 as int + 0x100 * ((v as u16 / 0x100) as u8) as int) as i16
        == v) by (bit_vector);
}

/// Decoding two bytes and encoding the value gives the bytes back.
pub proof fn lemma_i16le_bytes_round_trip(w: I16LE)
    ensures
        i16le_of(w@) == w,
{
    let c0 = w.0[0];
    let c1 = w.0[1];
    let x = (c0 as int + 0x100 * c1 as int) as i16;
    assert(x == (c0 as int + 0x100 * c1 as int) as i16 ==> (x as u16 % 0x100) as u8 == c0 && (
    x as u16 / 0x100) as u8 == c1) by (bit_vector);
    assert(i16le_of(w@).0 =~= w.0);
}

/// Encoding a `u32` and decoding the result gives the value back.
pub proof fn lemma_u32le_round_trip(v: u32)
    ensures
        u32le_of(v)@ == v,
{
    assert(((v % 0x100) as u8 as int + 0x100 * ((v / 0x100 % 0x100) as u8) as int + 0x1_0000 * ((v
        / 0x1_0000 % 0x100) as u8) as int + 0x100_0000 * ((v / 0x100_0000) as u8) as int) as u32
        == v) by (bit_vector);
}

/// Decoding four bytes and encoding the value gives the bytes back.
pub proof fn lemma_u32le_bytes_round_trip(w: U32LE)
    ensures
        u32le_of(w@) == w,
{
    let c0 = w.0[0];
    let c1 = w.0[1];
    let c2 = w.0[2];
    let c3 = w.0[3];
    let x = (c0 as int + 0x100 * c1 as int + 0x1_0000 * c2 as int + 0x100_0000 * c3 as int) as u32;
    assert(x == (c0 as int + 0x100 * c1 as int + 0x1_0000 * c2 as int + 0x100_0000
        * c3 as int) as u32 ==> (x % 0x100) as u8 == c0 && (x / 0x100 % 0x100) as u8 == c1 && (x
        / 0x1_0000 % 0x100) as u8 == c2 && (x / 0x100_0000) as u8 == c3) by (bit_vector);
    assert(u32le_of(w@).0 =~= w.0);
}

/// A closed set of identifiers, each of which is sent on the wire as one byte.
pub trait WireId: Sized + Copy {
    /// The byte that stands for this identifier.
    spec fn spec_to_u8(self) -> u8;

    /// The identifier that a byte stands for, if any.
    spec fn spec_from_u8(b: u8) -> Option<Self>;

    /// Every identifier decodes from its own byte, and a byte that decodes
    /// stands for the identifier it decodes to.
    proof fn lemma_wire_id(id: Self, b: u8)
        ensures
            Self::spec_from_u8(id.spec_to_u8()) == Some(id),
            Self::spec_from_u8(b) matches Some(i) ==> i.spec_to_u8() == b,
    ;

    fn from_u8(b: u8) -> (r: Option<Self>)
        ensures
            r == Self::spec_from_u8(b),
    ;

    fn to_u8(&self) -> (r: u8)
        ensures
            r == self.spec_to_u8(),
    ;
}

/// Identifier of a report that the controller sends.
#[derive(Copy, Clone, Debug, PartialEq, Eq, Structural)]
pub enum InputReportId {
    Normal,
    StandardAndSubcmd,
    MCUFwUpdate,
    StandardFull,
    StandardFullMCU,
}

impl WireId for InputReportId {
    open spec fn spec_to_u8(self) -> u8 {
        match self {
            InputReportId::Normal => 0x3f,
            InputReportId::StandardAndSubcmd => 0x21,
            InputReportId::MCUFwUpdate => 0x23,
            InputReportId::StandardFull => 0x30,
            InputReportId::StandardFullMCU => 0x31,
        }
    }

    open spec fn spec_from_u8(b: u8) -> Option<Self> {
        match b {
            0x3f => Some(InputReportId::Normal),
            0x21 => Some(InputReportId::StandardAndSubcmd),
            0x23 => Some(InputReportId::MCUFwUpdate),
            0x30 => Some(InputReportId::StandardFull),
            0x31 => Some(InputReportId::StandardFullMCU),
            _ => None,
        }
    }

    proof fn lemma_wire_id(id: Self, b: u8) {
    }

    fn from_u8(b: u8) -> (r: Option<Self>) {
        match b {
            0x3f => Some(InputReportId::Normal),
            0x21 => Some(InputReportId::StandardAndSubcmd),
            0x23 => Some(InputReportId::MCUFwUpdate),
            0x30 => Some(InputReportId::StandardFull),
            0x31 => Some(InputReportId::StandardFullMCU),
            _ => None,
        }
    }

    fn to_u8(&self) -> (r: u8) {
        match self {
            InputReportId::Normal => 0x3f,
            InputReportId::StandardAndSubcmd => 0x21,
            InputReportId::MCUFwUpdate => 0x23,
            InputReportId::StandardFull => 0x30,
            InputReportId::StandardFullMCU => 0x31,
        }
    }
}

/// Identifier of a subcommand that the host sends; the controller ignores unknown ones.
#[derive(Copy, Clone, Debug, PartialEq, Eq, Structural)]
pub enum SubcommandId {
    GetOnlyControllerState,
    BluetoothManualPairing,
    RequestDeviceInfo,
    SetInputReportMode,
    GetTriggerButtonsElapsedTime,
    SetShipmentMode,
    SPIRead,
    SPIWrite,
    SetMCUConf,
    SetMCUState,
    SetUnknownData,
    SetPlayerLights,
    SetHomeLight,
    SetIMUMode,
    SetIMUSens,
    EnableVibration,
    /// Seen in exchanges with accessories such as the ring controller.
    MaybeAccessory,
    /// Observed with an empty argument and the reply `[0, 32]`.
    Unknown0x59,
    /// Observed with the argument `[4, 1, 1, 2]` and an empty reply.
    Unknown0x5a,
    /// Observed with empty argument and reply.
    Unknown0x5b,
    /// Observed with arguments of varying length and an empty reply.
    Unknown0x5c,
}

impl WireId for SubcommandId {
    open spec fn spec_to_u8(self) -> u8 {
        match self {
            SubcommandId::GetOnlyControllerState => 0x00,
            SubcommandId::BluetoothManualPairing => 0x01,
            SubcommandId::RequestDeviceInfo => 0x02,
            SubcommandId::SetInputReportMode => 0x03,
            SubcommandId::GetTriggerButtonsElapsedTime => 0x04,
            SubcommandId::SetShipmentMode => 0x08,
            SubcommandId::SPIRead => 0x10,
            SubcommandId::SPIWrite => 0x11,
            SubcommandId::SetMCUConf => 0x21,
            SubcommandId::SetMCUState => 0x22,
            SubcommandId::SetUnknownData => 0x24,
            SubcommandId::SetPlayerLights => 0x30,
            SubcommandId::SetHomeLight => 0x38,
            SubcommandId::SetIMUMode => 0x40,
            SubcommandId::SetIMUSens => 0x41,
            SubcommandId::EnableVibration => 0x48,
            SubcommandId::MaybeAccessory => 0x58,
            SubcommandId::Unknown0x59 => 0x59,
            SubcommandId::Unknown0x5a => 0x5a,
            SubcommandId::Unknown0x5b => 0x5b,
            SubcommandId::Unknown0x5c => 0x5c,
        }
    }

    open spec fn spec_from_u8(b: u8) -> Option<Self> {
        match b {
            0x00 => Some(SubcommandId::GetOnlyControllerState),
            0x01 => Some(SubcommandId::BluetoothManualPairing),
            0x02 => Some(SubcommandId::RequestDeviceInfo),
            0x03 => Some(SubcommandId::SetInputReportMode),
            0x04 => Some(SubcommandId::GetTriggerButtonsElapsedTime),
            0x08 => Some(SubcommandId::SetShipmentMode),
            0x10 => Some(SubcommandId::SPIRead),
            0x11 => Some(SubcommandId::SPIWrite),
            0x21 => Some(SubcommandId::SetMCUConf),
            0x22 => Some(SubcommandId::SetMCUState),
            0x24 => Some(SubcommandId::SetUnknownData),
            0x30 => Some(SubcommandId::SetPlayerLights),
            0x38 => Some(SubcommandId::SetHomeLight),
            0x40 => Some(SubcommandId::SetIMUMode),
            0x41 => Some(SubcommandId::SetIMUSens),
            0x48 => Some(SubcommandId::EnableVibration),
            0x58 => Some(SubcommandId::MaybeAccessory),
            0x59 => Some(SubcommandId::Unknown0x59),
            0x5a => Some(SubcommandId::Unknown0x5a),
            0x5b => Some(SubcommandId::Unknown0x5b),
            0x5c => Some(SubcommandId::Unknown0x5c),
            _ => None,
        }
    }

    proof fn lemma_wire_id(id: Self, b: u8) {
    }

    fn from_u8(b: u8) -> (r: Option<Self>) {
        match b {
            0x00 => Some(SubcommandId::GetOnlyControllerState),
            0x01 => Some(SubcommandId::BluetoothManualPairing),
            0x02 => Some(SubcommandId::RequestDeviceInfo),
            0x03 => Some(SubcommandId::SetInputReportMode),
            0x04 => Some(SubcommandId::GetTriggerButtonsElapsedTime),
            0x08 => Some(SubcommandId::SetShipmentMode),
            0x10 => Some(SubcommandId::SPIRead),
            0x11 => Some(SubcommandId::SPIWrite),
            0x21 => Some(SubcommandId::SetMCUConf),
            0x22 => Some(SubcommandId::SetMCUState),
            0x24 => Some(SubcommandId::SetUnknownData),
            0x30 => Some(SubcommandId::SetPlayerLights),
            0x38 => Some(SubcommandId::SetHomeLight),
            0x40 => Some(SubcommandId::SetIMUMode),
            0x41 => Some(SubcommandId::SetIMUSens),
            0x48 => Some(SubcommandId::EnableVibration),
            0x58 => Some(SubcommandId::MaybeAccessory),
            0x59 => Some(SubcommandId::Unknown0x59),
            0x5a => Some(SubcommandId::Unknown0x5a),
            0x5b => Some(SubcommandId::Unknown0x5b),
            0x5c => Some(SubcommandId::Unknown0x5c),
            _ => None,
        }
    }

    fn to_u8(&self) -> (r: u8) {
        match self {
            SubcommandId::GetOnlyControllerState => 0x00,
            SubcommandId::BluetoothManualPairing => 0x01,
            SubcommandId::RequestDeviceInfo => 0x02,
            SubcommandId::SetInputReportMode => 0x03,
            SubcommandId::GetTriggerButtonsElapsedTime => 0x04,
            SubcommandId::SetShipmentMode => 0x08,
            SubcommandId::SPIRead => 0x10,
            SubcommandId::SPIWrite => 0x11,
            SubcommandId::SetMCUConf => 0x21,
            SubcommandId::SetMCUState => 0x22,
            SubcommandId::SetUnknownData => 0x24,
            SubcommandId::SetPlayerLights => 0x30,
            SubcommandId::SetHomeLight => 0x38,
            SubcommandId::SetIMUMode => 0x40,
            SubcommandId::SetIMUSens => 0x41,
            SubcommandId::EnableVibration => 0x48,
            SubcommandId::MaybeAccessory => 0x58,
            SubcommandId::Unknown0x59 => 0x59,
            SubcommandId::Unknown0x5a => 0x5a,
            SubcommandId::Unknown0x5b => 0x5b,
            SubcommandId::Unknown0x5c => 0x5c,
        }
    }
}

/// A boolean as a one-byte wire value.
#[derive(Copy, Clone, Debug, PartialEq, Eq, Structural)]
pub enum Bool {
    False,
    True,
}

impl WireId for Bool {
    open spec fn spec_to_u8(self) -> u8 {
        match self {
            Bool::False => 0x00,
            Bool::True => 0x01,
        }
    }

    open spec fn spec_from_u8(b: u8) -> Option<Self> {
        match b {
            0x00 => Some(Bool::False),
            0x01 => Some(Bool::True),
            _ => None,
        }
    }

    proof fn lemma_wire_id(id: Self, b: u8) {
    }

    fn from_u8(b: u8) -> (r: Option<Self>) {
        match b {
            0x00 => Some(Bool::False),
            0x01 => Some(Bool::True),
            _ => None,
        }
    }

    fn to_u8(&self) -> (r: u8) {
        match self {
            Bool::False => 0x00,
            Bool::True => 0x01,
        }
    }
}

impl From<bool> for Bool {
    fn from(b: bool) -> (r: Bool) {
        match b {
            false => Bool::False,
            true => Bool::True,
        }
    }
}

impl vstd::std_specs::convert::FromSpecImpl<bool> for Bool {
    open spec fn obeys_from_spec() -> bool {
        true
    }

    open spec fn from_spec(b: bool) -> Bool {
        if b {
            Bool::True
        } else {
            Bool::False
        }
    }
}

/// A tag byte as it stands in a frame, read as an identifier of `Id` when it is one.
/// Bytes that stand for no identifier are kept as they are.
pub struct RawId<Id>(u8, PhantomData<Id>);

impl<Id> Clone for RawId<Id> {
    fn clone(&self) -> (r: Self)
        ensures
            r == *self,
    {
        RawId(self.0, PhantomData)
    }
}

impl<Id> Copy for RawId<Id> {

}

impl<Id> View for RawId<Id> {
    type V = u8;

    closed spec fn view(&self) -> u8 {
        self.0
    }
}

impl<Id> RawId<Id> {
    pub fn new(id: u8) -> (r: Self)
        ensures
            r@ == id,
    {
        RawId(id, PhantomData)
    }

    /// The byte as it stands on the wire.
    pub fn to_byte(&self) -> (r: u8)
        ensures
            r == self@,
    {
        self.0
    }
}

impl<Id: WireId> RawId<Id> {
    /// The identifier that the byte stands for, or `None` for a byte outside the set.
    pub fn try_into(self) -> (r: Option<Id>)
        ensures
            r == Id::spec_from_u8(self@),
    {
        Id::from_u8(self.0)
    }

}

impl<Id: WireId> PartialEq<Id> for RawId<Id> {
    /// Whether the byte stands for `other`.
    fn eq(&self, other: &Id) -> (r: bool) {
        proof {
            Id::lemma_wire_id(*other, self.0);
        }
        other.to_u8() == self.0
    }
}

impl<Id: WireId> vstd::std_specs::cmp::PartialEqSpecImpl<Id> for RawId<Id> {
    open spec fn obeys_eq_spec() -> bool {
        true
    }

    open spec fn eq_spec(&self, other: &Id) -> bool {
        Id::spec_from_u8(self@) == Some(*other)
    }
}

impl<Id: WireId> From<Id> for RawId<Id> {
    fn from(id: Id) -> (r: RawId<Id>) {
        RawId(id.to_u8(), PhantomData)
    }
}

impl<Id: WireId> vstd::std_specs::convert::FromSpecImpl<Id> for RawId<Id> {
    open spec fn obeys_from_spec() -> bool {
        true
    }

    open spec fn from_spec(id: Id) -> RawId<Id> {
        raw_id_of(id)
    }
}

/// The tag that stands for `id`.
pub closed spec fn raw_id_of<Id: WireId>(id: Id) -> RawId<Id> {
    RawId(id.spec_to_u8(), PhantomData)
}

/// The tag that holds the byte `b`.
pub closed spec fn raw_id_with<Id>(b: u8) -> RawId<Id> {
    RawId(b, PhantomData)
}

/// `raw_id_with` holds the byte it is given, and every tag is the one that holds
/// its byte.
pub proof fn lemma_raw_id_with<Id>(b: u8, r: RawId<Id>)
    ensures
        raw_id_with::<Id>(b)@ == b,
        raw_id_with::<Id>(r@) == r,
{
}

/// The tag made from an identifier holds the identifier's byte and reads back as the
/// identifier; a tag made from any byte keeps that byte, and reads as an identifier
/// only when the byte stands for one.
pub proof fn lemma_raw_id_round_trip<Id: WireId>(id: Id, b: u8)
    ensures
        raw_id_of(id)@ == id.spec_to_u8(),
        Id::spec_from_u8(raw_id_of(id)@) == Some(id),
        Id::spec_from_u8(b) matches Some(i) ==> i.spec_to_u8() == b,
        Id::spec_from_u8(b) is None ==> forall|i: Id| i.spec_to_u8() != b,
{
    Id::lemma_wire_id(id, b);
    if Id::spec_from_u8(b) is None {
        assert forall|i: Id| i.spec_to_u8() != b by {
            Id::lemma_wire_id(i, b);
        }
    }
}

} // verus!
