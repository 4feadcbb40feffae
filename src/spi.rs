use crate::common::{
    i16le_of, lemma_i16le_bytes_round_trip, lemma_i16le_round_trip, lemma_raw_id_with,
    lemma_u32le_bytes_round_trip, lemma_u32le_round_trip, raw_id_with, u32le_of, I16LE, RawId,
    U32LE, WireId,
};
use vstd::prelude::*;
use vstd::string::*;

verus! {

broadcast use vstd::array::group_array_axioms;

/// The largest number of bytes that one SPI transaction carries.
pub const SPI_MAX_SIZE: u8 = 0x1D;

/// Length of the data region of an SPI frame.
pub const SPI_DATA_LEN: usize = 0x1D;

/// `b` followed by zeros up to the length of an SPI data region.
pub open spec fn padded(b: Seq<u8>) -> Seq<u8> {
    b + Seq::new((SPI_DATA_LEN - b.len()) as nat, |i: int| 0u8)
}

/// A region of the controller's flash: an offset and a size of at most
/// `SPI_MAX_SIZE` bytes.
#[derive(Copy, Clone, Debug, PartialEq, Eq, Structural)]
pub struct SPIRange(u32, u8);

impl View for SPIRange {
    type V = (u32, u8);

    closed spec fn view(&self) -> (u32, u8) {
        (self.0, self.1)
    }
}

impl SPIRange {
    #[verifier::type_invariant]
    spec fn inv(self) -> bool {
        self.1 <= SPI_MAX_SIZE
    }

    pub fn new(offset: u32, size: u8) -> (r: SPIRange)
        requires
            size <= SPI_MAX_SIZE,
        ensures
            r@ == (offset, size),
    {
        SPIRange(offset, size)
    }

    pub fn offset(&self) -> (r: u32)
        ensures
            r == self@.0,
    {
        self.0
    }

    pub fn size(&self) -> (r: u8)
        ensures
            r == self@.1,
            r <= SPI_MAX_SIZE,
    {
        proof {
            use_type_invariant(self);
        }
        self.1
    }
}

/// A flash read came back for another region than the record it was decoded as.
#[derive(Debug, Clone, Copy)]
pub struct WrongRangeError {
    pub expected: SPIRange,
    pub got: SPIRange,
}

/// A command that reads a region of flash.
#[derive(Copy, Clone, Debug)]
pub struct SPIReadRequest {
    offset: U32LE,
    size: u8,
}

impl View for SPIReadRequest {
    type V = (u32, u8);

    closed spec fn view(&self) -> (u32, u8) {
        (self.offset@, self.size)
    }
}

impl SPIReadRequest {
    #[verifier::type_invariant]
    spec fn inv(self) -> bool {
        self.size <= SPI_MAX_SIZE
    }

    pub fn new(range: SPIRange) -> (r: SPIReadRequest)
        ensures
            r@ == range@,
    {
        let size = range.size();
        proof {
            lemma_u32le_round_trip(range@.0);
        }
        SPIReadRequest { offset: U32LE::from(range.offset()), size }
    }

    pub fn range(&self) -> (r: SPIRange)
        ensures
            r@ == self@,
    {
        proof {
            use_type_invariant(self);
        }
        SPIRange(u32::from(self.offset), self.size)
    }

    /// The command's bytes: the offset, least significant byte first, then the size.
    pub fn to_bytes(&self) -> (r: [u8; 5])
        ensures
            r@ == u32le_of(self@.0).0@.push(self@.1),
    {
        proof {
            lemma_u32le_bytes_round_trip(self.offset);
        }
        let o = self.offset.0;
        let r = [o[0], o[1], o[2], o[3], self.size];
        assert(r@ =~= u32le_of(self@.0).0@.push(self@.1));
        r
    }
}

/// `b` copied into a zeroed SPI data region.
fn pad_data(b: &[u8]) -> (r: [u8; SPI_DATA_LEN])
    requires
        b@.len() <= SPI_DATA_LEN,
    ensures
        r@ == padded(b@),
{
    let mut r = [0u8; SPI_DATA_LEN];
    let mut i: usize = 0;
    assert(r@ =~= b@.take(0) + Seq::new((SPI_DATA_LEN - 0) as nat, |j: int| 0u8));
    while i < b.len()
        invariant
            i <= b@.len() <= SPI_DATA_LEN,
            r@ == b@.take(i as int) + Seq::new((SPI_DATA_LEN - i) as nat, |j: int| 0u8),
        decreases b@.len() - i,
    {
        r[i] = b[i];
        i = i + 1;
        assert(r@ =~= b@.take(i as int) + Seq::new((SPI_DATA_LEN - i) as nat, |j: int| 0u8));
    }
    assert(b@.take(i as int) =~= b@);
    r
}

/// The bytes of a frame that names a flash region and carries its data: the
/// offset, least significant byte first, the size, then the data region.
pub open spec fn spi_frame_bytes(offset: u32, size: u8, data: Seq<u8>) -> Seq<u8> {
    u32le_of(offset).0@ + seq![size] + data
}

/// `head` followed by `data`, as a `Vec`.
fn concat_bytes(head: &[u8], data: &[u8]) -> (r: Vec<u8>)
    ensures
        r@ == head@ + data@,
{
    let mut r: Vec<u8> = Vec::new();
    let mut i: usize = 0;
    while i < head.len()
        invariant
            i <= head@.len(),
            r@ == head@.take(i as int),
        decreases head@.len() - i,
    {
        r.push(head[i]);
        i = i + 1;
        assert(r@ =~= head@.take(i as int));
    }
    let mut j: usize = 0;
    assert(head@.take(i as int) =~= head@);
    assert(r@ =~= head@ + data@.take(0));
    while j < data.len()
        invariant
            j <= data@.len(),
            r@ == head@ + data@.take(j as int),
        decreases data@.len() - j,
    {
        r.push(data[j]);
        j = j + 1;
        assert(r@ =~= head@ + data@.take(j as int));
    }
    assert(data@.take(j as int) =~= data@);
    r
}

/// A command that writes data to a region of flash.
#[derive(Copy, Clone, Debug)]
pub struct SPIWriteRequest {
    address: U32LE,
    size: u8,
    data: [u8; SPI_DATA_LEN],
}

impl View for SPIWriteRequest {
    /// The offset, the size and the whole data region.
    type V = (u32, u8, Seq<u8>);

    closed spec fn view(&self) -> (u32, u8, Seq<u8>) {
        (self.address@, self.size, self.data@)
    }
}

impl SPIWriteRequest {
    #[verifier::type_invariant]
    spec fn inv(self) -> bool {
        self.size <= SPI_MAX_SIZE
    }

    /// A command that writes `data` to `range`; the data must fill the range exactly.
    pub fn new(range: SPIRange, data: &[u8]) -> (r: SPIWriteRequest)
        requires
            data@.len() == range@.1,
        ensures
            r@ == (range@.0, range@.1, padded(data@)),
    {
        let size = range.size();
        proof {
            lemma_u32le_round_trip(range@.0);
        }
        SPIWriteRequest { address: U32LE::from(range.offset()), size, data: pad_data(data) }
    }

    /// A command that writes `data` to `range`, or `None` when the data does not
    /// fill the range exactly.
    pub fn try_new(range: SPIRange, data: &[u8]) -> (r: Option<SPIWriteRequest>)
        ensures
            r is None <==> data@.len() != range@.1,
            r matches Some(w) ==> w@ == (range@.0, range@.1, padded(data@)),
    {
        if data.len() == range.size() as usize {
            Some(SPIWriteRequest::new(range, data))
        } else {
            None
        }
    }

    pub fn range(&self) -> (r: SPIRange)
        ensures
            r@ == (self@.0, self@.1),
    {
        proof {
            use_type_invariant(self);
        }
        SPIRange(u32::from(self.address), self.size)
    }

    /// The whole data region, the bytes past the range's size included.
    pub fn raw(&self) -> (r: [u8; SPI_DATA_LEN])
        ensures
            r@ == self@.2,
    {
        self.data
    }

    /// The command's bytes: offset, size and data region.
    pub fn to_bytes(&self) -> (r: Vec<u8>)
        ensures
            r@ == spi_frame_bytes(self@.0, self@.1, self@.2),
    {
        proof {
            lemma_u32le_bytes_round_trip(self.address);
        }
        let a = self.address.0;
        let head = [a[0], a[1], a[2], a[3], self.size];
        assert(head@ =~= u32le_of(self@.0).0@ + seq![self@.1]);
        concat_bytes(&head, &self.data)
    }
}

/// The controller's reply to a flash read: the region read and its data.
#[derive(Copy, Clone, Debug)]
pub struct SPIReadResult {
    address: U32LE,
    size: u8,
    data: [u8; SPI_DATA_LEN],
}

impl View for SPIReadResult {
    /// The offset, the size and the whole data region.
    type V = (u32, u8, Seq<u8>);

    closed spec fn view(&self) -> (u32, u8, Seq<u8>) {
        (self.address@, self.size, self.data@)
    }
}

/// Length of a flash read reply or write command on the wire.
pub const SPI_FRAME_LEN: usize = 34;

impl SPIReadResult {
    #[verifier::type_invariant]
    spec fn inv(self) -> bool {
        self.size <= SPI_MAX_SIZE
    }

    pub fn range(&self) -> (r: SPIRange)
        ensures
            r@ == (self@.0, self@.1),
    {
        proof {
            use_type_invariant(self);
        }
        SPIRange(u32::from(self.address), self.size)
    }

    /// The whole data region, the bytes past the range's size included.
    pub fn raw(&self) -> (r: [u8; SPI_DATA_LEN])
        ensures
            r@ == self@.2,
    {
        self.data
    }

    /// Reads a reply from the first `SPI_FRAME_LEN` bytes of `b`: the offset, least
    /// significant byte first, the size and the data region. `None` when `b` is
    /// shorter or the size is more than one transaction can carry.
    pub fn from_bytes(b: &[u8]) -> (r: Option<SPIReadResult>)
        ensures
            r is None <==> (b@.len() < SPI_FRAME_LEN || b@[4] > SPI_MAX_SIZE),
            r matches Some(v) ==> spi_frame_bytes(v@.0, v@.1, v@.2) == b@.take(
                SPI_FRAME_LEN as int,
            ),
    {
        if b.len() < SPI_FRAME_LEN || b[4] > SPI_MAX_SIZE {
            return None;
        }
        let address = U32LE([b[0], b[1], b[2], b[3]]);
        let mut data = [0u8; SPI_DATA_LEN];
        let mut i: usize = 0;
        while i < SPI_DATA_LEN
            invariant
                b@.len() >= SPI_FRAME_LEN,
                i <= SPI_DATA_LEN,
                forall|j: int| 0 <= j < i ==> data@[j] == b@[j + 5],
            decreases SPI_DATA_LEN - i,
        {
            data[i] = b[i + 5];
            i = i + 1;
        }
        let r = SPIReadResult { address, size: b[4], data };
        proof {
            lemma_u32le_bytes_round_trip(address);
            assert(spi_frame_bytes(r@.0, r@.1, r@.2) =~= b@.take(SPI_FRAME_LEN as int));
        }
        Some(r)
    }
}

/// The controller's reply to a flash write.
#[derive(Copy, Clone, Debug)]
pub struct SPIWriteResult {
    pub status: u8,
}

impl View for SPIWriteResult {
    type V = u8;

    open spec fn view(&self) -> u8 {
        self.status
    }
}

impl SPIWriteResult {
    /// A reply with the given status byte; 0 stands for success.
    pub fn new(status: u8) -> (r: Self)
        ensures
            r@ == status,
    {
        Self { status }
    }

    pub fn success(&self) -> (r: bool)
        ensures
            r == (self@ == 0),
    {
        self.status == 0
    }
}

/// The lower-case hexadecimal digit for `n`, for `n < 16`.
pub open spec fn hex_char(n: u8) -> char {
    match n {
        0 => '0',
        1 => '1',
        2 => '2',
        3 => '3',
        4 => '4',
        5 => '5',
        6 => '6',
        7 => '7',
        8 => '8',
        9 => '9',
        10 => 'a',
        11 => 'b',
        12 => 'c',
        13 => 'd',
        14 => 'e',
        15 => 'f',
        _ => 'f',
    }
}

/// The value of an ASCII hexadecimal digit of either case, or `None`.
pub open spec fn hex_value(c: u8) -> Option<u8> {
    if 0x30 <= c <= 0x39 {
        Some((c - 0x30) as u8)
    } else if 0x61 <= c <= 0x66 {
        Some((c - 0x61 + 10) as u8)
    } else if 0x41 <= c <= 0x46 {
        Some((c - 0x41 + 10) as u8)
    } else {
        None
    }
}

/// The byte that two hexadecimal digits stand for, high digit first.
pub open spec fn hex_pair(hi: u8, lo: u8) -> Option<u8> {
    match (hex_value(hi), hex_value(lo)) {
        (Some(h), Some(l)) => Some((h * 16 + l) as u8),
        _ => None,
    }
}

/// Three bytes written as six hexadecimal digits, or `None` when a digit is not one.
pub open spec fn parse_rgb(b: Seq<u8>) -> Option<(u8, u8, u8)> {
    match (hex_pair(b[0], b[1]), hex_pair(b[2], b[3]), hex_pair(b[4], b[5])) {
        (Some(r), Some(g), Some(bl)) => Some((r, g, bl)),
        _ => None,
    }
}

/// `#rrggbb` with lower-case digits.
pub open spec fn rgb_string(r: u8, g: u8, b: u8) -> Seq<char> {
    seq![
        '#',
        hex_char(r / 16),
        hex_char(r % 16),
        hex_char(g / 16),
        hex_char(g % 16),
        hex_char(b / 16),
        hex_char(b % 16),
    ]
}

fn hex_digit(c: u8) -> (r: Option<u8>)
    ensures
        r == hex_value(c),
{
    if 0x30 <= c && c <= 0x39 {
        Some(c - 0x30)
    } else if 0x61 <= c && c <= 0x66 {
        Some(c - 0x61 + 10)
    } else if 0x41 <= c && c <= 0x46 {
        Some(c - 0x41 + 10)
    } else {
        None
    }
}

fn parse_hex_pair(hi: u8, lo: u8) -> (r: Option<u8>)
    ensures
        r == hex_pair(hi, lo),
{
    match (hex_digit(hi), hex_digit(lo)) {
        (Some(h), Some(l)) => Some(h * 16 + l),
        _ => None,
    }
}

fn hex_digit_str(n: u8) -> (r: &'static str)
    requires
        n < 16,
    ensures
        r@ == seq![hex_char(n)],
{
    proof {
        reveal_strlit("0");
        reveal_strlit("1");
        reveal_strlit("2");
        reveal_strlit("3");
        reveal_strlit("4");
        reveal_strlit("5");
        reveal_strlit("6");
        reveal_strlit("7");
        reveal_strlit("8");
        reveal_strlit("9");
        reveal_strlit("a");
        reveal_strlit("b");
        reveal_strlit("c");
        reveal_strlit("d");
        reveal_strlit("e");
        reveal_strlit("f");
    }
    if n == 0 {
        "0"
    } else if n == 1 {
        "1"
    } else if n == 2 {
        "2"
    } else if n == 3 {
        "3"
    } else if n == 4 {
        "4"
    } else if n == 5 {
        "5"
    } else if n == 6 {
        "6"
    } else if n == 7 {
        "7"
    } else if n == 8 {
        "8"
    } else if n == 9 {
        "9"
    } else if n == 10 {
        "a"
    } else if n == 11 {
        "b"
    } else if n == 12 {
        "c"
    } else if n == 13 {
        "d"
    } else if n == 14 {
        "e"
    } else {
        "f"
    }
}

/// A colour as red, green and blue bytes.
#[derive(Copy, Clone, Debug, PartialEq, Eq, Structural)]
pub struct Color(u8, u8, u8);

impl View for Color {
    type V = (u8, u8, u8);

    closed spec fn view(&self) -> (u8, u8, u8) {
        (self.0, self.1, self.2)
    }
}

/// A colour string held a character that is not a hexadecimal digit.
#[derive(Copy, Clone, Debug, PartialEq, Eq, Structural)]
pub struct ParseColorError;

impl Color {
    pub fn new(r: u8, g: u8, b: u8) -> (c: Color)
        ensures
            c@ == (r, g, b),
    {
        Color(r, g, b)
    }

    /// Reads six hexadecimal digits, two for each of red, green and blue.
    pub fn from_str(s: &str) -> (r: Result<Color, ParseColorError>)
        requires
            s.spec_bytes().len() == 6,
        ensures
            match parse_rgb(s.spec_bytes()) {
                Some(c) => r matches Ok(col) && col@ == c,
                None => r is Err,
            },
    {
        let b = s.as_bytes();
        let r = parse_hex_pair(b[0], b[1]);
        let g = parse_hex_pair(b[2], b[3]);
        let bl = parse_hex_pair(b[4], b[5]);
        match (r, g, bl) {
            (Some(r), Some(g), Some(bl)) => Ok(Color(r, g, bl)),
            _ => Err(ParseColorError),
        }
    }

    /// The colour as `#rrggbb`, with lower-case digits.
    pub fn to_string(&self) -> (r: String)
        ensures
            r@ == rgb_string(self@.0, self@.1, self@.2),
    {
        let mut s = String::from_str("#");
        proof {
            reveal_strlit("#");
        }
        s.append(hex_digit_str(self.0 / 16));
        s.append(hex_digit_str(self.0 % 16));
        s.append(hex_digit_str(self.1 / 16));
        s.append(hex_digit_str(self.1 % 16));
        s.append(hex_digit_str(self.2 / 16));
        s.append(hex_digit_str(self.2 % 16));
        assert(s@ =~= rgb_string(self@.0, self@.1, self@.2));
        s
    }
}

impl Default for Color {
    fn default() -> (r: Color)
        ensures
            r@ == (0u8, 0u8, 0u8),
    {
        Color(0, 0, 0)
    }
}

/// A value with an encoding of a fixed number of bytes.
pub trait Bytes: Sized {
    /// The length of the encoding.
    spec fn byte_len() -> nat;

    /// The value's bytes.
    spec fn spec_bytes(self) -> Seq<u8>;

    /// The value that `byte_len()` bytes stand for.
    spec fn spec_read(b: Seq<u8>) -> Self;

    /// Values and their encodings correspond one to one.
    proof fn lemma_bytes(self, b: Seq<u8>)
        ensures
            self.spec_bytes().len() == Self::byte_len(),
            Self::spec_read(self.spec_bytes()) == self,
            b.len() == Self::byte_len() ==> Self::spec_read(b).spec_bytes() == b,
    ;

    /// Appends the value's bytes to `out`.
    fn write_bytes(&self, out: &mut Vec<u8>)
        ensures
            final(out)@ == old(out)@ + self.spec_bytes(),
    ;

    /// The value encoded in `b` from index `at` on.
    fn read_bytes(b: &[u8], at: usize) -> (r: Self)
        requires
            at + Self::byte_len() <= b@.len(),
        ensures
            r == Self::spec_read(b@.subrange(at as int, at + Self::byte_len())),
    ;
}

/// A record that lives at one fixed region of the controller's flash.
pub trait SPI: Bytes + Copy {
    /// The region, as offset and size, where the record lives.
    spec fn spec_range() -> (u32, u8);

    /// The record fills its region, which fits one transaction.
    proof fn lemma_range()
        ensures
            Self::spec_range().1 == Self::byte_len(),
            Self::spec_range().1 <= SPI_MAX_SIZE,
    ;

    fn range() -> (r: SPIRange)
        ensures
            r@ == Self::spec_range(),
    ;
}

/// The region as a range.
pub closed spec fn spi_range_of(r: (u32, u8)) -> SPIRange {
    SPIRange(r.0, r.1)
}

/// The data region of every read reply and write command is `SPI_DATA_LEN` bytes
/// long.
pub proof fn lemma_data_len(r: SPIReadResult, w: SPIWriteRequest)
    ensures
        r@.2.len() == SPI_DATA_LEN,
        w@.2.len() == SPI_DATA_LEN,
{
}

/// `spi_range_of` builds the range with the given offset and size.
pub proof fn lemma_spi_range_of(r: (u32, u8))
    ensures
        spi_range_of(r)@ == r,
{
}

/// Two ranges are equal exactly when their offsets and sizes are.
pub proof fn lemma_range_eq(a: SPIRange, b: SPIRange)
    ensures
        (a == b) <==> (a@ == b@),
{
}

/// What decoding a flash read reply with range `got` and data region `data` as a
/// `T` gives: the record when the reply is for `T`'s region, else the error that
/// names both regions.
pub open spec fn decode_spi<T: SPI>(got: (u32, u8), data: Seq<u8>) -> Result<T, WrongRangeError> {
    if got == T::spec_range() {
        Ok(T::spec_read(data.subrange(0, T::spec_range().1 as int)))
    } else {
        Err(WrongRangeError { expected: spi_range_of(T::spec_range()), got: spi_range_of(got) })
    }
}

/// Decodes a flash read reply as a `T`, checking that it was read from `T`'s region.
pub fn decode_read_result<T: SPI>(value: &SPIReadResult) -> (r: Result<T, WrongRangeError>)
    ensures
        r == decode_spi::<T>((value@.0, value@.1), value@.2),
        value@.2.len() == SPI_DATA_LEN,
        r is Ok <==> (value@.0, value@.1) == T::spec_range(),
        r matches Ok(x) ==> x == T::spec_read(value@.2.subrange(0, T::spec_range().1 as int)),
        r matches Err(e) ==> e.expected@ == T::spec_range() && e.got@ == (value@.0, value@.1),
{
    let got = value.range();
    let expected = T::range();
    proof {
        use_type_invariant(value);
        T::lemma_range();
    }
    if got == expected {
        Ok(T::read_bytes(&value.data, 0))
    } else {
        Err(WrongRangeError { expected, got })
    }
}

/// The read reply that carries `record` from its region.
pub fn read_result_of<T: SPI>(record: &T) -> (r: SPIReadResult)
    ensures
        r@ == spi_view_of(*record),
{
    let range = T::range();
    let mut bytes: Vec<u8> = Vec::new();
    record.write_bytes(&mut bytes);
    proof {
        record.lemma_bytes(bytes@);
        T::lemma_range();
        assert(bytes@ =~= record.spec_bytes());
        lemma_u32le_round_trip(range@.0);
    }
    SPIReadResult {
        address: U32LE::from(range.offset()),
        size: range.size(),
        data: pad_data(bytes.as_slice()),
    }
}

/// The command that writes `record` to its region.
pub fn write_request_of<T: SPI>(record: &T) -> (r: SPIWriteRequest)
    ensures
        r@ == spi_view_of(*record),
{
    let range = T::range();
    let mut bytes: Vec<u8> = Vec::new();
    record.write_bytes(&mut bytes);
    proof {
        record.lemma_bytes(bytes@);
        T::lemma_range();
        assert(bytes@ =~= record.spec_bytes());
    }
    SPIWriteRequest::new(range, bytes.as_slice())
}

/// The offset, size and padded data region of a frame that carries `record`.
pub open spec fn spi_view_of<T: SPI>(record: T) -> (u32, u8, Seq<u8>) {
    (T::spec_range().0, T::spec_range().1, padded(record.spec_bytes()))
}

/// The read reply with the given offset, size and data region.
pub closed spec fn read_result_with(v: (u32, u8, Seq<u8>)) -> SPIReadResult {
    choose|r: SPIReadResult| r@ == v
}

/// A read reply is the one that its view names.
pub proof fn lemma_read_result_with(r: SPIReadResult)
    ensures
        read_result_with(r@) == r,
{
    let q = read_result_with(r@);
    assert(q@ == r@);
    lemma_u32le_bytes_round_trip(q.address);
    lemma_u32le_bytes_round_trip(r.address);
    assert(q.data =~= r.data);
}

/// The write command with the given offset, size and data region.
pub closed spec fn write_request_with(v: (u32, u8, Seq<u8>)) -> SPIWriteRequest {
    choose|r: SPIWriteRequest| r@ == v
}

/// A write command is the one that its view names.
pub proof fn lemma_write_request_with(r: SPIWriteRequest)
    ensures
        write_request_with(r@) == r,
{
    let q = write_request_with(r@);
    assert(q@ == r@);
    lemma_u32le_bytes_round_trip(q.address);
    lemma_u32le_bytes_round_trip(r.address);
    assert(q.data =~= r.data);
}

/// A record read back from the reply that carries it is the record itself; decoded
/// as a record of another region, the reply gives the error that names the region
/// expected and the region read.
pub proof fn lemma_spi_round_trip<A: SPI, B: SPI>(a: A, got: (u32, u8), data: Seq<u8>)
    requires
        got == A::spec_range(),
        data == padded(a.spec_bytes()),
    ensures
        decode_spi::<A>(got, data) == Ok::<A, WrongRangeError>(a),
        B::spec_range() != A::spec_range() ==> (decode_spi::<B>(got, data) matches Err(e)
            && e.expected@ == B::spec_range() && e.got@ == A::spec_range()),
{
    a.lemma_bytes(a.spec_bytes());
    A::lemma_range();
    assert(data.subrange(0, A::spec_range().1 as int) =~= a.spec_bytes());
}

/// The colours of a controller's body, buttons and grips.
#[derive(Copy, Clone, Debug)]
pub struct ControllerColor {
    pub body: Color,
    pub buttons: Color,
    pub left_grip: Color,
    pub right_grip: Color,
}

impl Default for ControllerColor {
    fn default() -> (r: ControllerColor)
        ensures
            r.body@ == (0u8, 0u8, 0u8),
            r.buttons@ == (0u8, 0u8, 0u8),
            r.left_grip@ == (0u8, 0u8, 0u8),
            r.right_grip@ == (0u8, 0u8, 0u8),
    {
        ControllerColor {
            body: Color::default(),
            buttons: Color::default(),
            left_grip: Color::default(),
            right_grip: Color::default(),
        }
    }
}

impl Bytes for [u8; 2] {
    open spec fn byte_len() -> nat {
        2
    }

    open spec fn spec_bytes(self) -> Seq<u8> {
        self@
    }

    open spec fn spec_read(b: Seq<u8>) -> Self {
        [b[0], b[1]]
    }

    proof fn lemma_bytes(self, b: Seq<u8>) {
        assert(Self::spec_read(self@) =~= self);
        if b.len() == 2 {
            assert(Self::spec_read(b)@ =~= b);
        }
    }

    fn write_bytes(&self, out: &mut Vec<u8>) {
        let ghost start = out@;
        out.push(self[0]);
        out.push(self[1]);
        assert(out@ =~= start + self@);
    }

    fn read_bytes(b: &[u8], at: usize) -> (r: Self) {
        [b[at], b[at + 1]]
    }
}

impl Bytes for [u8; 3] {
    open spec fn byte_len() -> nat {
        3
    }

    open spec fn spec_bytes(self) -> Seq<u8> {
        self@
    }

    open spec fn spec_read(b: Seq<u8>) -> Self {
        [b[0], b[1], b[2]]
    }

    proof fn lemma_bytes(self, b: Seq<u8>) {
        assert(Self::spec_read(self@) =~= self);
        if b.len() == 3 {
            assert(Self::spec_read(b)@ =~= b);
        }
    }

    fn write_bytes(&self, out: &mut Vec<u8>) {
        let ghost start = out@;
        out.push(self[0]);
        out.push(self[1]);
        out.push(self[2]);
        assert(out@ =~= start + self@);
    }

    fn read_bytes(b: &[u8], at: usize) -> (r: Self) {
        [b[at], b[at + 1], b[at + 2]]
    }
}

impl Bytes for I16LE {
    open spec fn byte_len() -> nat {
        2
    }

    open spec fn spec_bytes(self) -> Seq<u8> {
        self.0@
    }

    open spec fn spec_read(b: Seq<u8>) -> Self {
        I16LE([b[0], b[1]])
    }

    proof fn lemma_bytes(self, b: Seq<u8>) {
        assert(Self::spec_read(self.0@).0 =~= self.0);
        if b.len() == 2 {
            assert(Self::spec_read(b).0@ =~= b);
        }
    }

    fn write_bytes(&self, out: &mut Vec<u8>) {
        let ghost start = out@;
        out.push(self.0[0]);
        out.push(self.0[1]);
        assert(out@ =~= start + self.0@);
    }

    fn read_bytes(b: &[u8], at: usize) -> (r: Self) {
        I16LE([b[at], b[at + 1]])
    }
}

impl Bytes for Color {
    open spec fn byte_len() -> nat {
        3
    }

    open spec fn spec_bytes(self) -> Seq<u8> {
        seq![self@.0, self@.1, self@.2]
    }

    closed spec fn spec_read(b: Seq<u8>) -> Self {
        Color(b[0], b[1], b[2])
    }

    proof fn lemma_bytes(self, b: Seq<u8>) {
        if b.len() == 3 {
            assert(Self::spec_read(b).spec_bytes() =~= b);
        }
    }

    fn write_bytes(&self, out: &mut Vec<u8>) {
        let ghost start = out@;
        out.push(self.0);
        out.push(self.1);
        out.push(self.2);
        assert(out@ =~= start + self.spec_bytes());
    }

    fn read_bytes(b: &[u8], at: usize) -> (r: Self) {
        Color(b[at], b[at + 1], b[at + 2])
    }
}
impl Bytes for ControllerColor {
    open spec fn byte_len() -> nat {
        12
    }

    open spec fn spec_bytes(self) -> Seq<u8> {
        self.body.spec_bytes()
            + self.buttons.spec_bytes()
            + self.left_grip.spec_bytes()
            + self.right_grip.spec_bytes()
    }

    closed spec fn spec_read(b: Seq<u8>) -> Self {
        ControllerColor {
            body: Color::spec_read(b.subrange(0, 3)),
            buttons: Color::spec_read(b.subrange(3, 6)),
            left_grip: Color::spec_read(b.subrange(6, 9)),
            right_grip: Color::spec_read(b.subrange(9, 12)),
        }
    }

    proof fn lemma_bytes(self, b: Seq<u8>) {
        let s = self.spec_bytes();
        self.body.lemma_bytes(b.subrange(0, 3));
        assert(s.subrange(0, 3) =~= self.body.spec_bytes());
        self.buttons.lemma_bytes(b.subrange(3, 6));
        assert(s.subrange(3, 6) =~= self.buttons.spec_bytes());
        self.left_grip.lemma_bytes(b.subrange(6, 9));
        assert(s.subrange(6, 9) =~= self.left_grip.spec_bytes());
        self.right_grip.lemma_bytes(b.subrange(9, 12));
        assert(s.subrange(9, 12) =~= self.right_grip.spec_bytes());
        assert(s =~= self.body.spec_bytes()
            + self.buttons.spec_bytes()
            + self.left_grip.spec_bytes()
            + self.right_grip.spec_bytes());
        if b.len() == 12 {
            assert(Self::spec_read(b).spec_bytes() =~= b);
        }
    }

    fn write_bytes(&self, out: &mut Vec<u8>) {
        let ghost start = out@;
        self.body.write_bytes(out);
        self.buttons.write_bytes(out);
        self.left_grip.write_bytes(out);
        self.right_grip.write_bytes(out);
        assert(out@ =~= start + self.spec_bytes());
    }

    fn read_bytes(b: &[u8], at: usize) -> (r: Self) {
        let n = b.len();
        assert(at + 12 <= n);
        let part0 = Color::read_bytes(b, at);
        let part1 = Color::read_bytes(b, at + 3);
        let part2 = Color::read_bytes(b, at + 6);
        let part3 = Color::read_bytes(b, at + 9);
        proof {
            assert(b@.subrange(at as int, at + 12).subrange(0, 3) =~= b@.subrange(at as int, at
                + 3));
            assert(b@.subrange(at as int, at + 12).subrange(3, 6) =~= b@.subrange(at + 3, at + 6));
            assert(b@.subrange(at as int, at + 12).subrange(6, 9) =~= b@.subrange(at + 6, at + 9));
            assert(b@.subrange(at as int, at + 12).subrange(9, 12) =~= b@.subrange(at
                + 9, at
                + 12));
        }
        ControllerColor { body: part0, buttons: part1, left_grip: part2, right_grip: part3 }
    }
}

/// The colours are stored body, buttons, left grip, right grip, each as red, green
/// and blue.
pub proof fn lemma_controller_color_layout(c: ControllerColor)
    ensures
        c.spec_bytes() == seq![
            c.body@.0,
            c.body@.1,
            c.body@.2,
            c.buttons@.0,
            c.buttons@.1,
            c.buttons@.2,
            c.left_grip@.0,
            c.left_grip@.1,
            c.left_grip@.2,
            c.right_grip@.0,
            c.right_grip@.1,
            c.right_grip@.2,
        ],
{
    assert(c.spec_bytes() =~= seq![
        c.body@.0,
        c.body@.1,
        c.body@.2,
        c.buttons@.0,
        c.buttons@.1,
        c.buttons@.2,
        c.left_grip@.0,
        c.left_grip@.1,
        c.left_grip@.2,
        c.right_grip@.0,
        c.right_grip@.1,
        c.right_grip@.2,
    ]);
}

impl SPI for ControllerColor {
    open spec fn spec_range() -> (u32, u8) {
        (0x6050, 12)
    }

    proof fn lemma_range() {
    }

    fn range() -> (r: SPIRange) {
        SPIRange(0x6050, 12)
    }
}

impl From<ControllerColor> for SPIReadResult {
    fn from(c: ControllerColor) -> (r: SPIReadResult)
        ensures
            r@ == spi_view_of(c),
    {
        let r = read_result_of(&c);
        proof {
            lemma_read_result_with(r);
        }
        r
    }
}

impl vstd::std_specs::convert::FromSpecImpl<ControllerColor> for SPIReadResult {
    open spec fn obeys_from_spec() -> bool {
        true
    }

    open spec fn from_spec(c: ControllerColor) -> SPIReadResult {
        read_result_with(spi_view_of(c))
    }
}

impl TryFrom<SPIReadResult> for ControllerColor {
    type Error = WrongRangeError;

    fn try_from(value: SPIReadResult) -> (r: Result<Self, WrongRangeError>)
        ensures
            value@.2.len() == SPI_DATA_LEN,
            r is Ok <==> (value@.0, value@.1) == Self::spec_range(),
            r matches Ok(x) ==> x == Self::spec_read(
                value@.2.subrange(0, Self::spec_range().1 as int),
            ),
            r matches Err(e) ==> e.expected@ == Self::spec_range() && e.got@ == (
                value@.0,
                value@.1,
            ),
    {
        decode_read_result(&value)
    }
}

impl vstd::std_specs::convert::TryFromSpecImpl<SPIReadResult> for ControllerColor {
    open spec fn obeys_try_from_spec() -> bool {
        true
    }

    open spec fn try_from_spec(value: SPIReadResult) -> Result<Self, WrongRangeError> {
        decode_spi::<ControllerColor>((value@.0, value@.1), value@.2)
    }
}

impl From<ControllerColor> for SPIWriteRequest {
    fn from(c: ControllerColor) -> (r: SPIWriteRequest)
        ensures
            r@ == spi_view_of(c),
    {
        let r = write_request_of(&c);
        proof {
            lemma_write_request_with(r);
        }
        r
    }
}

impl vstd::std_specs::convert::FromSpecImpl<ControllerColor> for SPIWriteRequest {
    open spec fn obeys_from_spec() -> bool {
        true
    }

    open spec fn from_spec(c: ControllerColor) -> SPIWriteRequest {
        write_request_with(spi_view_of(c))
    }
}

/// The x and y that three packed bytes hold: x is byte 0 with the low nibble of
/// byte 1 above it, y is the high nibble of byte 1 with byte 2 above it.
pub open spec fn unpack(raw: [u8; 3]) -> (u16, u16) {
    (((raw[1] % 16) * 256 + raw[0]) as u16, (raw[2] * 16 + raw[1] / 16) as u16)
}

/// Two 12-bit values packed into three bytes, as `unpack` reads them.
pub open spec fn pack(x: u16, y: u16) -> [u8; 3] {
    [(x % 256) as u8, ((x / 256) % 16 + (y % 16) * 16) as u8, ((y / 16) % 256) as u8]
}

/// `a + b`, at most 0xFFF.
pub open spec fn clamped_sum(a: u16, b: u16) -> u16 {
    if a + b > 0xFFF {
        0xFFF
    } else {
        (a + b) as u16
    }
}

/// `a - b`, at least 0.
pub open spec fn floored_difference(a: u16, b: u16) -> u16 {
    if a < b {
        0
    } else {
        (a - b) as u16
    }
}

/// The largest position of a stick, per axis the centre plus the stored distance,
/// at most 0xFFF.
pub open spec fn stick_max(center: (u16, u16), dist: (u16, u16)) -> (u16, u16) {
    (clamped_sum(center.0, dist.0), clamped_sum(center.1, dist.1))
}

/// The smallest position of a stick, per axis the centre minus the stored
/// distance, at least 0.
pub open spec fn stick_min(center: (u16, u16), dist: (u16, u16)) -> (u16, u16) {
    (floored_difference(center.0, dist.0), floored_difference(center.1, dist.1))
}

/// The x of three packed bytes.
pub fn unpack_x(raw: [u8; 3]) -> (r: u16)
    ensures
        r == unpack(raw).0,
        r <= 0xFFF,
{
    let b0 = raw[0];
    let b1 = raw[1];
    let r = (((b1 as u16) << 8) & 0xF00) | b0 as u16;
    assert(r == (b1 % 16) * 256 + b0 && r <= 0xFFF) by (bit_vector)
        requires
            r == (((b1 as u16) << 8) & 0xF00) | b0 as u16,
    ;
    r
}

/// The y of three packed bytes.
pub fn unpack_y(raw: [u8; 3]) -> (r: u16)
    ensures
        r == unpack(raw).1,
        r <= 0xFFF,
{
    let b1 = raw[1];
    let b2 = raw[2];
    let r = ((b2 as u16) << 4) | (b1 >> 4) as u16;
    assert(r == b2 * 16 + b1 / 16 && r <= 0xFFF) by (bit_vector)
        requires
            r == ((b2 as u16) << 4) | (b1 >> 4) as u16,
    ;
    r
}

fn clamp_add(a: u16, b: u16) -> (r: u16)
    requires
        a <= 0xFFF,
        b <= 0xFFF,
    ensures
        r == clamped_sum(a, b),
{
    let s = a + b;
    if s > 0xFFF {
        0xFFF
    } else {
        s
    }
}

/// Packs two 12-bit values into three bytes.
pub fn cord_packing(x: u16, y: u16) -> (r: [u8; 3])
    ensures
        r == pack(x, y),
{
    let b0 = (x & 0x00FF) as u8;
    let b1 = ((x >> 8) & 0x000F) as u8 | ((y & 0x000F) << 4) as u8;
    let b2 = (y >> 4) as u8;
    assert(b0 == x % 256 && b1 == (x / 256) % 16 + (y % 16) * 16 && b2 == (y / 16) % 256)
        by (bit_vector)
        requires
            b0 == (x & 0x00FF) as u8,
            b1 == ((x >> 8) & 0x000F) as u8 | ((y & 0x000F) << 4) as u8,
            b2 == (y >> 4) as u8,
    ;
    let r = [b0, b1, b2];
    assert(r =~= pack(x, y));
    r
}

/// Packing two 12-bit values and unpacking the bytes gives the values back.
pub proof fn lemma_pack_round_trip(x: u16, y: u16)
    requires
        x <= 0xFFF,
        y <= 0xFFF,
    ensures
        unpack(pack(x, y)) == (x, y),
{
    let p = pack(x, y);
    assert(((x / 256) % 16 + (y % 16) * 16) % 16 == (x / 256) % 16) by (nonlinear_arith)
        requires
            x <= 0xFFF,
            y <= 0xFFF,
    ;
    assert(((x / 256) % 16 + (y % 16) * 16) / 16 == y % 16) by (nonlinear_arith)
        requires
            x <= 0xFFF,
            y <= 0xFFF,
    ;
}

/// The three packed (x, y) pairs of a stick calibration; `min` and `max` are
/// distances from `center`.
pub struct StickCalibrationView {
    pub max: [u8; 3],
    pub center: [u8; 3],
    pub min: [u8; 3],
}

impl StickCalibrationView {
    /// The centre as (x, y).
    pub open spec fn center_pos(self) -> (u16, u16) {
        unpack(self.center)
    }

    /// The largest reachable position as (x, y).
    pub open spec fn max_pos(self) -> (u16, u16) {
        stick_max(unpack(self.center), unpack(self.max))
    }

    /// The smallest reachable position as (x, y).
    pub open spec fn min_pos(self) -> (u16, u16) {
        stick_min(unpack(self.center), unpack(self.min))
    }
}

/// The factory calibration of either stick: centre (0x79F, 0x8A0), reaching 0x4F7
/// and 0x424 below it and 0x510 and 0x479 above it.
pub open spec fn default_stick_view() -> StickCalibrationView {
    StickCalibrationView {
        max: pack(0x510, 0x479),
        center: pack(0x79F, 0x8A0),
        min: pack(0x4F7, 0x424),
    }
}

/// Calibration of the left stick: three packed (x, y) pairs, `max`, `center` and `min`.
/// `min` and `max` are stored as distances from `center`.
#[derive(Copy, Clone, Debug)]
pub struct LeftStickCalibration {
    max: [u8; 3],
    center: [u8; 3],
    min: [u8; 3],
}

impl View for LeftStickCalibration {
    type V = StickCalibrationView;

    closed spec fn view(&self) -> StickCalibrationView {
        StickCalibrationView { max: self.max, center: self.center, min: self.min }
    }
}

impl LeftStickCalibration {
    /// The x of a packed pair.
    pub fn conv_x(&self, raw: [u8; 3]) -> (r: u16)
        ensures
            r == unpack(raw).0,
    {
        unpack_x(raw)
    }

    /// The y of a packed pair.
    pub fn conv_y(&self, raw: [u8; 3]) -> (r: u16)
        ensures
            r == unpack(raw).1,
    {
        unpack_y(raw)
    }

    pub fn max(&self) -> (r: (u16, u16))
        ensures
            r == self@.max_pos(),
    {
        let center = self.center();
        (
            clamp_add(center.0, self.conv_x(self.max)),
            clamp_add(center.1, self.conv_y(self.max)),
        )
    }

    pub fn center(&self) -> (r: (u16, u16))
        ensures
            r == self@.center_pos(),
    {
        (self.conv_x(self.center), self.conv_y(self.center))
    }

    pub fn min(&self) -> (r: (u16, u16))
        ensures
            r == self@.min_pos(),
    {
        let center = self.center();
        (
            center.0.saturating_sub(self.conv_x(self.min)),
            center.1.saturating_sub(self.conv_y(self.min)),
        )
    }
}

impl Default for LeftStickCalibration {
    /// The factory values.
    fn default() -> (r: Self)
        ensures
            r@ == default_stick_view(),
    {
        LeftStickCalibration {
            max: cord_packing(0x510, 0x479),
            center: cord_packing(0x79F, 0x8A0),
            min: cord_packing(0x4F7, 0x424),
        }
    }
}

/// Calibration of the right stick: three packed (x, y) pairs, `center`, `min` and `max`.
/// `min` and `max` are stored as distances from `center`.
#[derive(Copy, Clone, Debug)]
pub struct RightStickCalibration {
    center: [u8; 3],
    min: [u8; 3],
    max: [u8; 3],
}

impl View for RightStickCalibration {
    type V = StickCalibrationView;

    closed spec fn view(&self) -> StickCalibrationView {
        StickCalibrationView { max: self.max, center: self.center, min: self.min }
    }
}

impl RightStickCalibration {
    /// The x of a packed pair.
    pub fn conv_x(&self, raw: [u8; 3]) -> (r: u16)
        ensures
            r == unpack(raw).0,
    {
        unpack_x(raw)
    }

    /// The y of a packed pair.
    pub fn conv_y(&self, raw: [u8; 3]) -> (r: u16)
        ensures
            r == unpack(raw).1,
    {
        unpack_y(raw)
    }

    pub fn max(&self) -> (r: (u16, u16))
        ensures
            r == self@.max_pos(),
    {
        let center = self.center();
        (
            clamp_add(center.0, self.conv_x(self.max)),
            clamp_add(center.1, self.conv_y(self.max)),
        )
    }

    pub fn center(&self) -> (r: (u16, u16))
        ensures
            r == self@.center_pos(),
    {
        (self.conv_x(self.center), self.conv_y(self.center))
    }

    pub fn min(&self) -> (r: (u16, u16))
        ensures
            r == self@.min_pos(),
    {
        let center = self.center();
        (
            center.0.saturating_sub(self.conv_x(self.min)),
            center.1.saturating_sub(self.conv_y(self.min)),
        )
    }
}

impl Default for RightStickCalibration {
    /// The factory values.
    fn default() -> (r: Self)
        ensures
            r@ == default_stick_view(),
    {
        RightStickCalibration {
            max: cord_packing(0x510, 0x479),
            center: cord_packing(0x79F, 0x8A0),
            min: cord_packing(0x4F7, 0x424),
        }
    }
}

/// In the factory calibration of either stick, the smallest position lies below the
/// centre and the centre below the largest position, on both axes.
pub proof fn lemma_default_stick_order()
    ensures
        default_stick_view().min_pos().0 < default_stick_view().center_pos().0
            < default_stick_view().max_pos().0,
        default_stick_view().min_pos().1 < default_stick_view().center_pos().1
            < default_stick_view().max_pos().1,
{
    lemma_pack_round_trip(0x510, 0x479);
    lemma_pack_round_trip(0x79F, 0x8A0);
    lemma_pack_round_trip(0x4F7, 0x424);
}

impl Bytes for LeftStickCalibration {
    open spec fn byte_len() -> nat {
        9
    }

    open spec fn spec_bytes(self) -> Seq<u8> {
        self@.max.spec_bytes() + self@.center.spec_bytes() + self@.min.spec_bytes()
    }

    closed spec fn spec_read(b: Seq<u8>) -> Self {
        LeftStickCalibration {
            max: <[u8; 3] as Bytes>::spec_read(b.subrange(0, 3)),
            center: <[u8; 3] as Bytes>::spec_read(b.subrange(3, 6)),
            min: <[u8; 3] as Bytes>::spec_read(b.subrange(6, 9)),
        }
    }

    proof fn lemma_bytes(self, b: Seq<u8>) {
        let s = self.spec_bytes();
        self.max.lemma_bytes(b.subrange(0, 3));
        assert(s.subrange(0, 3) =~= self.max.spec_bytes());
        self.center.lemma_bytes(b.subrange(3, 6));
        assert(s.subrange(3, 6) =~= self.center.spec_bytes());
        self.min.lemma_bytes(b.subrange(6, 9));
        assert(s.subrange(6, 9) =~= self.min.spec_bytes());
        assert(s =~= self.max.spec_bytes() + self.center.spec_bytes() + self.min.spec_bytes());
        if b.len() == 9 {
            assert(Self::spec_read(b).spec_bytes() =~= b);
        }
    }

    fn write_bytes(&self, out: &mut Vec<u8>) {
        let ghost start = out@;
        self.max.write_bytes(out);
        self.center.write_bytes(out);
        self.min.write_bytes(out);
        assert(out@ =~= start + self.spec_bytes());
    }

    fn read_bytes(b: &[u8], at: usize) -> (r: Self) {
        let n = b.len();
        assert(at + 9 <= n);
        let part0 = <[u8; 3] as Bytes>::read_bytes(b, at);
        let part1 = <[u8; 3] as Bytes>::read_bytes(b, at + 3);
        let part2 = <[u8; 3] as Bytes>::read_bytes(b, at + 6);
        proof {
            assert(b@.subrange(at as int, at + 9).subrange(0, 3) =~= b@.subrange(at as int, at
                + 3));
            assert(b@.subrange(at as int, at + 9).subrange(3, 6) =~= b@.subrange(at + 3, at + 6));
            assert(b@.subrange(at as int, at + 9).subrange(6, 9) =~= b@.subrange(at + 6, at + 9));
        }
        LeftStickCalibration { max: part0, center: part1, min: part2 }
    }
}

impl Bytes for RightStickCalibration {
    open spec fn byte_len() -> nat {
        9
    }

    open spec fn spec_bytes(self) -> Seq<u8> {
        self@.center.spec_bytes() + self@.min.spec_bytes() + self@.max.spec_bytes()
    }

    closed spec fn spec_read(b: Seq<u8>) -> Self {
        RightStickCalibration {
            center: <[u8; 3] as Bytes>::spec_read(b.subrange(0, 3)),
            min: <[u8; 3] as Bytes>::spec_read(b.subrange(3, 6)),
            max: <[u8; 3] as Bytes>::spec_read(b.subrange(6, 9)),
        }
    }

    proof fn lemma_bytes(self, b: Seq<u8>) {
        let s = self.spec_bytes();
        self.center.lemma_bytes(b.subrange(0, 3));
        assert(s.subrange(0, 3) =~= self.center.spec_bytes());
        self.min.lemma_bytes(b.subrange(3, 6));
        assert(s.subrange(3, 6) =~= self.min.spec_bytes());
        self.max.lemma_bytes(b.subrange(6, 9));
        assert(s.subrange(6, 9) =~= self.max.spec_bytes());
        assert(s =~= self.center.spec_bytes() + self.min.spec_bytes() + self.max.spec_bytes());
        if b.len() == 9 {
            assert(Self::spec_read(b).spec_bytes() =~= b);
        }
    }

    fn write_bytes(&self, out: &mut Vec<u8>) {
        let ghost start = out@;
        self.center.write_bytes(out);
        self.min.write_bytes(out);
        self.max.write_bytes(out);
        assert(out@ =~= start + self.spec_bytes());
    }

    fn read_bytes(b: &[u8], at: usize) -> (r: Self) {
        let n = b.len();
        assert(at + 9 <= n);
        let part0 = <[u8; 3] as Bytes>::read_bytes(b, at);
        let part1 = <[u8; 3] as Bytes>::read_bytes(b, at + 3);
        let part2 = <[u8; 3] as Bytes>::read_bytes(b, at + 6);
        proof {
            assert(b@.subrange(at as int, at + 9).subrange(0, 3) =~= b@.subrange(at as int, at
                + 3));
            assert(b@.subrange(at as int, at + 9).subrange(3, 6) =~= b@.subrange(at + 3, at + 6));
            assert(b@.subrange(at as int, at + 9).subrange(6, 9) =~= b@.subrange(at + 6, at + 9));
        }
        RightStickCalibration { center: part0, min: part1, max: part2 }
    }
}

/// The calibration of both sticks as the factory wrote it.
#[derive(Copy, Clone, Debug)]
pub struct SticksCalibration {
    pub left: LeftStickCalibration,
    pub right: RightStickCalibration,
}

impl Default for SticksCalibration {
    /// The factory values.
    fn default() -> (r: Self)
        ensures
            r.left@ == default_stick_view(),
            r.right@ == default_stick_view(),
    {
        SticksCalibration {
            left: LeftStickCalibration::default(),
            right: RightStickCalibration::default(),
        }
    }
}

impl Bytes for SticksCalibration {
    open spec fn byte_len() -> nat {
        18
    }

    open spec fn spec_bytes(self) -> Seq<u8> {
        self.left.spec_bytes() + self.right.spec_bytes()
    }

    open spec fn spec_read(b: Seq<u8>) -> Self {
        SticksCalibration {
            left: LeftStickCalibration::spec_read(b.subrange(0, 9)),
            right: RightStickCalibration::spec_read(b.subrange(9, 18)),
        }
    }

    proof fn lemma_bytes(self, b: Seq<u8>) {
        let s = self.spec_bytes();
        self.left.lemma_bytes(b.subrange(0, 9));
        assert(s.subrange(0, 9) =~= self.left.spec_bytes());
        self.right.lemma_bytes(b.subrange(9, 18));
        assert(s.subrange(9, 18) =~= self.right.spec_bytes());
        assert(s =~= self.left.spec_bytes() + self.right.spec_bytes());
        if b.len() == 18 {
            assert(Self::spec_read(b).spec_bytes() =~= b);
        }
    }

    fn write_bytes(&self, out: &mut Vec<u8>) {
        let ghost start = out@;
        self.left.write_bytes(out);
        self.right.write_bytes(out);
        assert(out@ =~= start + self.spec_bytes());
    }

    fn read_bytes(b: &[u8], at: usize) -> (r: Self) {
        let n = b.len();
        assert(at + 18 <= n);
        let part0 = LeftStickCalibration::read_bytes(b, at);
        let part1 = RightStickCalibration::read_bytes(b, at + 9);
        proof {
            assert(b@.subrange(at as int, at + 18).subrange(0, 9) =~= b@.subrange(at as int, at
                + 9));
            assert(b@.subrange(at as int, at + 18).subrange(9, 18) =~= b@.subrange(at
                + 9, at
                + 18));
        }
        SticksCalibration { left: part0, right: part1 }
    }
}

impl SPI for SticksCalibration {
    open spec fn spec_range() -> (u32, u8) {
        (0x603D, 0x12)
    }

    proof fn lemma_range() {
    }

    fn range() -> (r: SPIRange) {
        SPIRange(0x603D, 0x12)
    }
}

/// Magic bytes in front of a user calibration that is present.
pub open spec fn user_calib_magic() -> [u8; 2] {
    [0xB2, 0xA1]
}

/// Magic bytes in front of a user calibration slot that holds none.
pub open spec fn user_no_calib_magic() -> [u8; 2] {
    [0xFF, 0xFF]
}

fn calib_magic() -> (r: [u8; 2])
    ensures
        r == user_calib_magic(),
{
    [0xB2, 0xA1]
}

fn no_calib_magic() -> (r: [u8; 2])
    ensures
        r == user_no_calib_magic(),
{
    [0xFF, 0xFF]
}

fn is_calib_magic(m: [u8; 2]) -> (r: bool)
    ensures
        r == (m == user_calib_magic()),
{
    let r = m[0] == 0xB2 && m[1] == 0xA1;
    assert(r == (m =~= user_calib_magic()));
    r
}

/// A user calibration of one stick: the `LeftStickCalibration` that the user stored, valid
/// only while the magic bytes in front of it say that one is present.
#[derive(Copy, Clone, Debug)]
pub struct LeftUserStickCalibration {
    magic: [u8; 2],
    calib: LeftStickCalibration,
}

impl LeftUserStickCalibration {
    /// The magic bytes.
    pub closed spec fn spec_magic(&self) -> [u8; 2] {
        self.magic
    }

    /// The stored calibration, present or not.
    pub closed spec fn spec_stored(&self) -> LeftStickCalibration {
        self.calib
    }

    /// The user calibration, when the magic bytes say that one is present.
    pub open spec fn spec_calib(&self) -> Option<LeftStickCalibration> {
        if self.spec_magic() == user_calib_magic() {
            Some(self.spec_stored())
        } else {
            None
        }
    }

    /// Marks the stored calibration as present or absent.
    pub fn set_magic(&mut self, magic: bool)
        ensures
            final(self).spec_magic() == (if magic {
                user_calib_magic()
            } else {
                user_no_calib_magic()
            }),
            final(self).spec_stored() == old(self).spec_stored(),
    {
        match magic {
            true => self.magic = calib_magic(),
            false => self.magic = no_calib_magic(),
        }
    }

    /// Stores `calib` and marks it present.
    pub fn set_calib(&mut self, calib: LeftStickCalibration)
        ensures
            final(self).spec_calib() == Some(calib),
    {
        self.magic = calib_magic();
        self.calib = calib;
    }

    pub fn calib(&self) -> (r: Option<LeftStickCalibration>)
        ensures
            r == self.spec_calib(),
    {
        if is_calib_magic(self.magic) {
            Some(self.calib)
        } else {
            None
        }
    }

    /// The largest position of the user calibration, when one is present.
    pub fn max(&self) -> (r: Option<(u16, u16)>)
        ensures
            r == (match self.spec_calib() {
                Some(c) => Some(c@.max_pos()),
                None => None,
            }),
    {
        if is_calib_magic(self.magic) {
            Some(self.calib.max())
        } else {
            None
        }
    }

    /// The centre of the user calibration, when one is present.
    pub fn center(&self) -> (r: Option<(u16, u16)>)
        ensures
            r == (match self.spec_calib() {
                Some(c) => Some(c@.center_pos()),
                None => None,
            }),
    {
        if is_calib_magic(self.magic) {
            Some(self.calib.center())
        } else {
            None
        }
    }

    /// The smallest position of the user calibration, when one is present.
    pub fn min(&self) -> (r: Option<(u16, u16)>)
        ensures
            r == (match self.spec_calib() {
                Some(c) => Some(c@.min_pos()),
                None => None,
            }),
    {
        if is_calib_magic(self.magic) {
            Some(self.calib.min())
        } else {
            None
        }
    }
}

impl Default for LeftUserStickCalibration {
    /// A present calibration with the factory values.
    fn default() -> (r: Self)
        ensures
            r.spec_calib() matches Some(c) && c@ == default_stick_view(),
    {
        Self { magic: calib_magic(), calib: LeftStickCalibration::default() }
    }
}

impl Bytes for LeftUserStickCalibration {
    open spec fn byte_len() -> nat {
        11
    }

    open spec fn spec_bytes(self) -> Seq<u8> {
        self.spec_magic().spec_bytes() + self.spec_stored().spec_bytes()
    }

    closed spec fn spec_read(b: Seq<u8>) -> Self {
        LeftUserStickCalibration {
            magic: <[u8; 2] as Bytes>::spec_read(b.subrange(0, 2)),
            calib: LeftStickCalibration::spec_read(b.subrange(2, 11)),
        }
    }

    proof fn lemma_bytes(self, b: Seq<u8>) {
        let s = self.spec_bytes();
        self.magic.lemma_bytes(b.subrange(0, 2));
        assert(s.subrange(0, 2) =~= self.magic.spec_bytes());
        self.calib.lemma_bytes(b.subrange(2, 11));
        assert(s.subrange(2, 11) =~= self.calib.spec_bytes());
        assert(s =~= self.magic.spec_bytes() + self.calib.spec_bytes());
        if b.len() == 11 {
            assert(Self::spec_read(b).spec_bytes() =~= b);
        }
    }

    fn write_bytes(&self, out: &mut Vec<u8>) {
        let ghost start = out@;
        self.magic.write_bytes(out);
        self.calib.write_bytes(out);
        assert(out@ =~= start + self.spec_bytes());
    }

    fn read_bytes(b: &[u8], at: usize) -> (r: Self) {
        let n = b.len();
        assert(at + 11 <= n);
        let part0 = <[u8; 2] as Bytes>::read_bytes(b, at);
        let part1 = LeftStickCalibration::read_bytes(b, at + 2);
        proof {
            assert(b@.subrange(at as int, at + 11).subrange(0, 2) =~= b@.subrange(at as int, at
                + 2));
            assert(b@.subrange(at as int, at + 11).subrange(2, 11) =~= b@.subrange(at
                + 2, at
                + 11));
        }
        LeftUserStickCalibration { magic: part0, calib: part1 }
    }
}

/// A user calibration of one stick: the `RightStickCalibration` that the user stored, valid
/// only while the magic bytes in front of it say that one is present.
#[derive(Copy, Clone, Debug)]
pub struct RightUserStickCalibration {
    magic: [u8; 2],
    calib: RightStickCalibration,
}

impl RightUserStickCalibration {
    /// The magic bytes.
    pub closed spec fn spec_magic(&self) -> [u8; 2] {
        self.magic
    }

    /// The stored calibration, present or not.
    pub closed spec fn spec_stored(&self) -> RightStickCalibration {
        self.calib
    }

    /// The user calibration, when the magic bytes say that one is present.
    pub open spec fn spec_calib(&self) -> Option<RightStickCalibration> {
        if self.spec_magic() == user_calib_magic() {
            Some(self.spec_stored())
        } else {
            None
        }
    }

    /// Stores `calib` and marks it present.
    pub fn set_calib(&mut self, calib: RightStickCalibration)
        ensures
            final(self).spec_calib() == Some(calib),
    {
        self.magic = calib_magic();
        self.calib = calib;
    }

    pub fn calib(&self) -> (r: Option<RightStickCalibration>)
        ensures
            r == self.spec_calib(),
    {
        if is_calib_magic(self.magic) {
            Some(self.calib)
        } else {
            None
        }
    }
}

impl Default for RightUserStickCalibration {
    /// A present calibration with the factory values.
    fn default() -> (r: Self)
        ensures
            r.spec_calib() matches Some(c) && c@ == default_stick_view(),
    {
        Self { magic: calib_magic(), calib: RightStickCalibration::default() }
    }
}

impl Bytes for RightUserStickCalibration {
    open spec fn byte_len() -> nat {
        11
    }

    open spec fn spec_bytes(self) -> Seq<u8> {
        self.spec_magic().spec_bytes() + self.spec_stored().spec_bytes()
    }

    closed spec fn spec_read(b: Seq<u8>) -> Self {
        RightUserStickCalibration {
            magic: <[u8; 2] as Bytes>::spec_read(b.subrange(0, 2)),
            calib: RightStickCalibration::spec_read(b.subrange(2, 11)),
        }
    }

    proof fn lemma_bytes(self, b: Seq<u8>) {
        let s = self.spec_bytes();
        self.magic.lemma_bytes(b.subrange(0, 2));
        assert(s.subrange(0, 2) =~= self.magic.spec_bytes());
        self.calib.lemma_bytes(b.subrange(2, 11));
        assert(s.subrange(2, 11) =~= self.calib.spec_bytes());
        assert(s =~= self.magic.spec_bytes() + self.calib.spec_bytes());
        if b.len() == 11 {
            assert(Self::spec_read(b).spec_bytes() =~= b);
        }
    }

    fn write_bytes(&self, out: &mut Vec<u8>) {
        let ghost start = out@;
        self.magic.write_bytes(out);
        self.calib.write_bytes(out);
        assert(out@ =~= start + self.spec_bytes());
    }

    fn read_bytes(b: &[u8], at: usize) -> (r: Self) {
        let n = b.len();
        assert(at + 11 <= n);
        let part0 = <[u8; 2] as Bytes>::read_bytes(b, at);
        let part1 = RightStickCalibration::read_bytes(b, at + 2);
        proof {
            assert(b@.subrange(at as int, at + 11).subrange(0, 2) =~= b@.subrange(at as int, at
                + 2));
            assert(b@.subrange(at as int, at + 11).subrange(2, 11) =~= b@.subrange(at
                + 2, at
                + 11));
        }
        RightUserStickCalibration { magic: part0, calib: part1 }
    }
}

/// A user calibration whose magic bytes mark it absent reads as none, whatever it
/// stores; one whose magic bytes mark it present reads as what it stores.
pub proof fn lemma_user_calibration_gating(u: LeftUserStickCalibration)
    ensures
        u.spec_magic() == user_no_calib_magic() ==> u.spec_calib() is None,
        u.spec_magic() == user_calib_magic() ==> u.spec_calib() == Some(u.spec_stored()),
{
    assert(user_no_calib_magic()[0] != user_calib_magic()[0]);
}

/// The user calibration of both sticks.
#[derive(Copy, Clone, Debug)]
pub struct UserSticksCalibration {
    pub left: LeftUserStickCalibration,
    pub right: RightUserStickCalibration,
}

impl Bytes for UserSticksCalibration {
    open spec fn byte_len() -> nat {
        22
    }

    open spec fn spec_bytes(self) -> Seq<u8> {
        self.left.spec_bytes() + self.right.spec_bytes()
    }

    open spec fn spec_read(b: Seq<u8>) -> Self {
        UserSticksCalibration {
            left: LeftUserStickCalibration::spec_read(b.subrange(0, 11)),
            right: RightUserStickCalibration::spec_read(b.subrange(11, 22)),
        }
    }

    proof fn lemma_bytes(self, b: Seq<u8>) {
        let s = self.spec_bytes();
        self.left.lemma_bytes(b.subrange(0, 11));
        assert(s.subrange(0, 11) =~= self.left.spec_bytes());
        self.right.lemma_bytes(b.subrange(11, 22));
        assert(s.subrange(11, 22) =~= self.right.spec_bytes());
        assert(s =~= self.left.spec_bytes() + self.right.spec_bytes());
        if b.len() == 22 {
            assert(Self::spec_read(b).spec_bytes() =~= b);
        }
    }

    fn write_bytes(&self, out: &mut Vec<u8>) {
        let ghost start = out@;
        self.left.write_bytes(out);
        self.right.write_bytes(out);
        assert(out@ =~= start + self.spec_bytes());
    }

    fn read_bytes(b: &[u8], at: usize) -> (r: Self) {
        let n = b.len();
        assert(at + 22 <= n);
        let part0 = LeftUserStickCalibration::read_bytes(b, at);
        let part1 = RightUserStickCalibration::read_bytes(b, at + 11);
        proof {
            assert(b@.subrange(at as int, at + 22).subrange(0, 11) =~= b@.subrange(at as int, at
                + 11));
            assert(b@.subrange(at as int, at + 22).subrange(11, 22) =~= b@.subrange(at
                + 11, at
                + 22));
        }
        UserSticksCalibration { left: part0, right: part1 }
    }
}

impl SPI for UserSticksCalibration {
    open spec fn spec_range() -> (u32, u8) {
        (0x8010, 0x16)
    }

    proof fn lemma_range() {
    }

    fn range() -> (r: SPIRange) {
        SPIRange(0x8010, 0x16)
    }
}

impl Bytes for [I16LE; 3] {
    open spec fn byte_len() -> nat {
        6
    }

    open spec fn spec_bytes(self) -> Seq<u8> {
        self[0].spec_bytes() + self[1].spec_bytes() + self[2].spec_bytes()
    }

    open spec fn spec_read(b: Seq<u8>) -> Self {
        [
            I16LE::spec_read(b.subrange(0, 2)),
            I16LE::spec_read(b.subrange(2, 4)),
            I16LE::spec_read(b.subrange(4, 6)),
        ]
    }

    proof fn lemma_bytes(self, b: Seq<u8>) {
        let s = self.spec_bytes();
        self[0].lemma_bytes(b.subrange(0, 2));
        assert(s.subrange(0, 2) =~= self[0].spec_bytes());
        self[1].lemma_bytes(b.subrange(2, 4));
        assert(s.subrange(2, 4) =~= self[1].spec_bytes());
        self[2].lemma_bytes(b.subrange(4, 6));
        assert(s.subrange(4, 6) =~= self[2].spec_bytes());
        assert(s =~= self[0].spec_bytes() + self[1].spec_bytes() + self[2].spec_bytes());
        if b.len() == 6 {
            assert(Self::spec_read(b).spec_bytes() =~= b);
        }
    }

    fn write_bytes(&self, out: &mut Vec<u8>) {
        let ghost start = out@;
        self[0].write_bytes(out);
        self[1].write_bytes(out);
        self[2].write_bytes(out);
        assert(out@ =~= start + self.spec_bytes());
    }

    fn read_bytes(b: &[u8], at: usize) -> (r: Self) {
        let n = b.len();
        assert(at + 6 <= n);
        let part0 = I16LE::read_bytes(b, at);
        let part1 = I16LE::read_bytes(b, at + 2);
        let part2 = I16LE::read_bytes(b, at + 4);
        proof {
            assert(b@.subrange(at as int, at + 6).subrange(0, 2) =~= b@.subrange(at as int, at
                + 2));
            assert(b@.subrange(at as int, at + 6).subrange(2, 4) =~= b@.subrange(at + 2, at + 4));
            assert(b@.subrange(at as int, at + 6).subrange(4, 6) =~= b@.subrange(at + 4, at + 6));
        }
        [part0, part1, part2]
    }
}

/// The zero-filled bytes of a region of `n` bytes.
pub open spec fn zeros(n: nat) -> Seq<u8> {
    Seq::new(n, |i: int| 0u8)
}

/// The values of a sensor calibration, one per axis for each of the four vectors.
pub struct SensorCalibrationView {
    pub acc_orig: Seq<i16>,
    pub acc_sens: Seq<i16>,
    pub gyro_orig: Seq<i16>,
    pub gyro_sens: Seq<i16>,
}

/// The values of a vector of three little-endian numbers.
pub open spec fn vector_values(v: [I16LE; 3]) -> Seq<i16> {
    seq![v[0]@, v[1]@, v[2]@]
}

/// The factory values: accelerometer origin (-2048, -1024, 0) and sensitivity 4000
/// (±8G), gyroscope origin (1792, 32384, 28672) and sensitivity 5173 (±2000dps).
pub open spec fn default_sensor_view() -> SensorCalibrationView {
    SensorCalibrationView {
        acc_orig: seq![-2048i16, -1024i16, 0i16],
        acc_sens: seq![4000i16, 4000i16, 4000i16],
        gyro_orig: seq![1792i16, 32384i16, 28672i16],
        gyro_sens: seq![5173i16, 5173i16, 5173i16],
    }
}

/// A sensor calibration whose values are all zero.
pub open spec fn zero_sensor_view() -> SensorCalibrationView {
    SensorCalibrationView {
        acc_orig: seq![0i16, 0i16, 0i16],
        acc_sens: seq![0i16, 0i16, 0i16],
        gyro_orig: seq![0i16, 0i16, 0i16],
        gyro_sens: seq![0i16, 0i16, 0i16],
    }
}

/// Calibration of the motion sensors: per axis, the accelerometer's origin and
/// sensitivity and the gyroscope's origin and sensitivity.
#[derive(Copy, Clone, Debug)]
pub struct SensorCalibration {
    acc_orig: [I16LE; 3],
    acc_sens: [I16LE; 3],
    gyro_orig: [I16LE; 3],
    gyro_sens: [I16LE; 3],
}

impl View for SensorCalibration {
    type V = SensorCalibrationView;

    closed spec fn view(&self) -> SensorCalibrationView {
        SensorCalibrationView {
            acc_orig: vector_values(self.acc_orig),
            acc_sens: vector_values(self.acc_sens),
            gyro_orig: vector_values(self.gyro_orig),
            gyro_sens: vector_values(self.gyro_sens),
        }
    }
}

impl SensorCalibration {
    /// A calibration whose bytes are all zero.
    pub fn reset() -> (r: SensorCalibration)
        ensures
            r@ == zero_sensor_view(),
            r.spec_bytes() == zeros(24),
    {
        let zero = [I16LE([0, 0]), I16LE([0, 0]), I16LE([0, 0])];
        let r = SensorCalibration {
            acc_orig: zero,
            acc_sens: zero,
            gyro_orig: zero,
            gyro_sens: zero,
        };
        assert(r.spec_bytes() =~= zeros(24));
        assert(vector_values(zero) =~= seq![0i16, 0i16, 0i16]);
        r
    }
}

impl Default for SensorCalibration {
    /// The factory values.
    fn default() -> (r: Self)
        ensures
            r@ == default_sensor_view(),
    {
        let r = SensorCalibration {
            acc_orig: [I16LE::from(-2048i16), I16LE::from(-1024i16), I16LE::from(0i16)],
            acc_sens: [I16LE::from(4000i16), I16LE::from(4000i16), I16LE::from(4000i16)],
            gyro_orig: [
                I16LE::from(14i16 * 128),
                I16LE::from(253i16 * 128),
                I16LE::from(224i16 * 128),
            ],
            gyro_sens: [I16LE::from(5173i16), I16LE::from(5173i16), I16LE::from(5173i16)],
        };
        proof {
            lemma_i16le_round_trip(-2048i16);
            lemma_i16le_round_trip(-1024i16);
            lemma_i16le_round_trip(0i16);
            lemma_i16le_round_trip(4000i16);
            lemma_i16le_round_trip(1792i16);
            lemma_i16le_round_trip(32384i16);
            lemma_i16le_round_trip(28672i16);
            lemma_i16le_round_trip(5173i16);
            assert(r@.acc_orig =~= default_sensor_view().acc_orig);
            assert(r@.acc_sens =~= default_sensor_view().acc_sens);
            assert(r@.gyro_orig =~= default_sensor_view().gyro_orig);
            assert(r@.gyro_sens =~= default_sensor_view().gyro_sens);
        }
        r
    }
}

impl Bytes for SensorCalibration {
    open spec fn byte_len() -> nat {
        24
    }

    closed spec fn spec_bytes(self) -> Seq<u8> {
        self.acc_orig.spec_bytes()
            + self.acc_sens.spec_bytes()
            + self.gyro_orig.spec_bytes()
            + self.gyro_sens.spec_bytes()
    }

    closed spec fn spec_read(b: Seq<u8>) -> Self {
        SensorCalibration {
            acc_orig: <[I16LE; 3] as Bytes>::spec_read(b.subrange(0, 6)),
            acc_sens: <[I16LE; 3] as Bytes>::spec_read(b.subrange(6, 12)),
            gyro_orig: <[I16LE; 3] as Bytes>::spec_read(b.subrange(12, 18)),
            gyro_sens: <[I16LE; 3] as Bytes>::spec_read(b.subrange(18, 24)),
        }
    }

    proof fn lemma_bytes(self, b: Seq<u8>) {
        let s = self.spec_bytes();
        self.acc_orig.lemma_bytes(b.subrange(0, 6));
        assert(s.subrange(0, 6) =~= self.acc_orig.spec_bytes());
        self.acc_sens.lemma_bytes(b.subrange(6, 12));
        assert(s.subrange(6, 12) =~= self.acc_sens.spec_bytes());
        self.gyro_orig.lemma_bytes(b.subrange(12, 18));
        assert(s.subrange(12, 18) =~= self.gyro_orig.spec_bytes());
        self.gyro_sens.lemma_bytes(b.subrange(18, 24));
        assert(s.subrange(18, 24) =~= self.gyro_sens.spec_bytes());
        assert(s =~= self.acc_orig.spec_bytes()
            + self.acc_sens.spec_bytes()
            + self.gyro_orig.spec_bytes()
            + self.gyro_sens.spec_bytes());
        if b.len() == 24 {
            assert(Self::spec_read(b).spec_bytes() =~= b);
        }
    }

    fn write_bytes(&self, out: &mut Vec<u8>) {
        let ghost start = out@;
        self.acc_orig.write_bytes(out);
        self.acc_sens.write_bytes(out);
        self.gyro_orig.write_bytes(out);
        self.gyro_sens.write_bytes(out);
        assert(out@ =~= start + self.spec_bytes());
    }

    fn read_bytes(b: &[u8], at: usize) -> (r: Self) {
        let n = b.len();
        assert(at + 24 <= n);
        let part0 = <[I16LE; 3] as Bytes>::read_bytes(b, at);
        let part1 = <[I16LE; 3] as Bytes>::read_bytes(b, at + 6);
        let part2 = <[I16LE; 3] as Bytes>::read_bytes(b, at + 12);
        let part3 = <[I16LE; 3] as Bytes>::read_bytes(b, at + 18);
        proof {
            assert(b@.subrange(at as int, at + 24).subrange(0, 6) =~= b@.subrange(at as int, at
                + 6));
            assert(b@.subrange(at as int, at + 24).subrange(6, 12) =~= b@.subrange(at
                + 6, at
                + 12));
            assert(b@.subrange(at as int, at + 24).subrange(12, 18) =~= b@.subrange(at
                + 12, at
                + 18));
            assert(b@.subrange(at as int, at + 24).subrange(18, 24) =~= b@.subrange(at
                + 18, at
                + 24));
        }
        SensorCalibration { acc_orig: part0, acc_sens: part1, gyro_orig: part2, gyro_sens: part3 }
    }
}

/// The bytes of three numbers, each least significant byte first.
pub open spec fn values_bytes(v: Seq<i16>) -> Seq<u8> {
    i16le_of(v[0]).0@ + i16le_of(v[1]).0@ + i16le_of(v[2]).0@
}

/// A sensor calibration is stored as the accelerometer's origin and sensitivity,
/// then the gyroscope's origin and sensitivity, each as three little-endian numbers.
pub proof fn lemma_sensor_layout(c: SensorCalibration)
    ensures
        c.spec_bytes() == values_bytes(c@.acc_orig) + values_bytes(c@.acc_sens) + values_bytes(
            c@.gyro_orig,
        ) + values_bytes(c@.gyro_sens),
{
    lemma_vector_layout(c.acc_orig);
    lemma_vector_layout(c.acc_sens);
    lemma_vector_layout(c.gyro_orig);
    lemma_vector_layout(c.gyro_sens);
}

proof fn lemma_vector_layout(v: [I16LE; 3])
    ensures
        values_bytes(vector_values(v)) == v.spec_bytes(),
{
    lemma_i16le_bytes_round_trip(v[0]);
    lemma_i16le_bytes_round_trip(v[1]);
    lemma_i16le_bytes_round_trip(v[2]);
}

impl SPI for SensorCalibration {
    open spec fn spec_range() -> (u32, u8) {
        (0x6020, 0x18)
    }

    proof fn lemma_range() {
    }

    fn range() -> (r: SPIRange) {
        SPIRange(0x6020, 0x18)
    }
}

/// A user calibration of the motion sensors, valid only while the magic bytes in
/// front of it say that one is present.
#[derive(Copy, Clone, Debug)]
pub struct UserSensorCalibration {
    magic: [u8; 2],
    calib: SensorCalibration,
}

impl UserSensorCalibration {
    /// The magic bytes.
    pub closed spec fn spec_magic(&self) -> [u8; 2] {
        self.magic
    }

    /// The stored calibration, present or not.
    pub closed spec fn spec_stored(&self) -> SensorCalibration {
        self.calib
    }

    /// The user calibration, when the magic bytes say that one is present.
    pub open spec fn spec_calib(&self) -> Option<SensorCalibration> {
        if self.spec_magic() == user_calib_magic() {
            Some(self.spec_stored())
        } else {
            None
        }
    }

    /// An empty slot: the magic bytes of an absent calibration and a zeroed one.
    pub fn reset() -> (r: UserSensorCalibration)
        ensures
            r.spec_magic() == user_no_calib_magic(),
            r.spec_calib() is None,
            r.spec_stored()@ == zero_sensor_view(),
            r.spec_stored().spec_bytes() == zeros(24),
    {
        UserSensorCalibration { magic: no_calib_magic(), calib: SensorCalibration::reset() }
    }

    pub fn calib(&self) -> (r: Option<SensorCalibration>)
        ensures
            r == self.spec_calib(),
    {
        if is_calib_magic(self.magic) {
            Some(self.calib)
        } else {
            None
        }
    }
}

impl Default for UserSensorCalibration {
    /// A present calibration with the factory values.
    fn default() -> (r: Self)
        ensures
            r.spec_calib() matches Some(c) && c@ == default_sensor_view(),
    {
        UserSensorCalibration { magic: calib_magic(), calib: SensorCalibration::default() }
    }
}

impl From<SensorCalibration> for UserSensorCalibration {
    /// A present user calibration holding `calib`.
    fn from(calib: SensorCalibration) -> (r: Self)
        ensures
            r.spec_magic() == user_calib_magic(),
            r.spec_stored() == calib,
            r.spec_calib() == Some(calib),
    {
        UserSensorCalibration { magic: calib_magic(), calib }
    }
}

impl vstd::std_specs::convert::FromSpecImpl<SensorCalibration> for UserSensorCalibration {
    open spec fn obeys_from_spec() -> bool {
        true
    }

    closed spec fn from_spec(calib: SensorCalibration) -> UserSensorCalibration {
        UserSensorCalibration { magic: user_calib_magic(), calib }
    }
}

impl Bytes for UserSensorCalibration {
    open spec fn byte_len() -> nat {
        26
    }

    open spec fn spec_bytes(self) -> Seq<u8> {
        self.spec_magic().spec_bytes() + self.spec_stored().spec_bytes()
    }

    closed spec fn spec_read(b: Seq<u8>) -> Self {
        UserSensorCalibration {
            magic: <[u8; 2] as Bytes>::spec_read(b.subrange(0, 2)),
            calib: SensorCalibration::spec_read(b.subrange(2, 26)),
        }
    }

    proof fn lemma_bytes(self, b: Seq<u8>) {
        let s = self.spec_bytes();
        self.magic.lemma_bytes(b.subrange(0, 2));
        assert(s.subrange(0, 2) =~= self.magic.spec_bytes());
        self.calib.lemma_bytes(b.subrange(2, 26));
        assert(s.subrange(2, 26) =~= self.calib.spec_bytes());
        assert(s =~= self.magic.spec_bytes() + self.calib.spec_bytes());
        if b.len() == 26 {
            assert(Self::spec_read(b).spec_bytes() =~= b);
        }
    }

    fn write_bytes(&self, out: &mut Vec<u8>) {
        let ghost start = out@;
        self.magic.write_bytes(out);
        self.calib.write_bytes(out);
        assert(out@ =~= start + self.spec_bytes());
    }

    fn read_bytes(b: &[u8], at: usize) -> (r: Self) {
        let n = b.len();
        assert(at + 26 <= n);
        let part0 = <[u8; 2] as Bytes>::read_bytes(b, at);
        let part1 = SensorCalibration::read_bytes(b, at + 2);
        proof {
            assert(b@.subrange(at as int, at + 26).subrange(0, 2) =~= b@.subrange(at as int, at
                + 2));
            assert(b@.subrange(at as int, at + 26).subrange(2, 26) =~= b@.subrange(at
                + 2, at
                + 26));
        }
        UserSensorCalibration { magic: part0, calib: part1 }
    }
}

impl SPI for UserSensorCalibration {
    open spec fn spec_range() -> (u32, u8) {
        (0x8026, 0x1A)
    }

    proof fn lemma_range() {
    }

    fn range() -> (r: SPIRange) {
        SPIRange(0x8026, 0x1A)
    }
}

impl From<SticksCalibration> for SPIReadResult {
    fn from(record: SticksCalibration) -> (r: SPIReadResult)
        ensures
            r@ == spi_view_of(record),
    {
        let r = read_result_of(&record);
        proof {
            lemma_read_result_with(r);
        }
        r
    }
}

impl vstd::std_specs::convert::FromSpecImpl<SticksCalibration> for SPIReadResult {
    open spec fn obeys_from_spec() -> bool {
        true
    }

    open spec fn from_spec(record: SticksCalibration) -> SPIReadResult {
        read_result_with(spi_view_of(record))
    }
}

impl TryFrom<SPIReadResult> for SticksCalibration {
    type Error = WrongRangeError;

    fn try_from(value: SPIReadResult) -> (r: Result<Self, WrongRangeError>)
        ensures
            value@.2.len() == SPI_DATA_LEN,
            r is Ok <==> (value@.0, value@.1) == Self::spec_range(),
            r matches Ok(x) ==> x == Self::spec_read(
                value@.2.subrange(0, Self::spec_range().1 as int),
            ),
            r matches Err(e) ==> e.expected@ == Self::spec_range() && e.got@ == (
                value@.0,
                value@.1,
            ),
    {
        decode_read_result(&value)
    }
}

impl vstd::std_specs::convert::TryFromSpecImpl<SPIReadResult> for SticksCalibration {
    open spec fn obeys_try_from_spec() -> bool {
        true
    }

    open spec fn try_from_spec(value: SPIReadResult) -> Result<Self, WrongRangeError> {
        decode_spi::<SticksCalibration>((value@.0, value@.1), value@.2)
    }
}

impl From<UserSticksCalibration> for SPIReadResult {
    fn from(record: UserSticksCalibration) -> (r: SPIReadResult)
        ensures
            r@ == spi_view_of(record),
    {
        let r = read_result_of(&record);
        proof {
            lemma_read_result_with(r);
        }
        r
    }
}

impl vstd::std_specs::convert::FromSpecImpl<UserSticksCalibration> for SPIReadResult {
    open spec fn obeys_from_spec() -> bool {
        true
    }

    open spec fn from_spec(record: UserSticksCalibration) -> SPIReadResult {
        read_result_with(spi_view_of(record))
    }
}

impl TryFrom<SPIReadResult> for UserSticksCalibration {
    type Error = WrongRangeError;

    fn try_from(value: SPIReadResult) -> (r: Result<Self, WrongRangeError>)
        ensures
            value@.2.len() == SPI_DATA_LEN,
            r is Ok <==> (value@.0, value@.1) == Self::spec_range(),
            r matches Ok(x) ==> x == Self::spec_read(
                value@.2.subrange(0, Self::spec_range().1 as int),
            ),
            r matches Err(e) ==> e.expected@ == Self::spec_range() && e.got@ == (
                value@.0,
                value@.1,
            ),
    {
        decode_read_result(&value)
    }
}

impl vstd::std_specs::convert::TryFromSpecImpl<SPIReadResult> for UserSticksCalibration {
    open spec fn obeys_try_from_spec() -> bool {
        true
    }

    open spec fn try_from_spec(value: SPIReadResult) -> Result<Self, WrongRangeError> {
        decode_spi::<UserSticksCalibration>((value@.0, value@.1), value@.2)
    }
}

impl From<SensorCalibration> for SPIReadResult {
    fn from(record: SensorCalibration) -> (r: SPIReadResult)
        ensures
            r@ == spi_view_of(record),
    {
        let r = read_result_of(&record);
        proof {
            lemma_read_result_with(r);
        }
        r
    }
}

impl vstd::std_specs::convert::FromSpecImpl<SensorCalibration> for SPIReadResult {
    open spec fn obeys_from_spec() -> bool {
        true
    }

    open spec fn from_spec(record: SensorCalibration) -> SPIReadResult {
        read_result_with(spi_view_of(record))
    }
}

impl TryFrom<SPIReadResult> for SensorCalibration {
    type Error = WrongRangeError;

    fn try_from(value: SPIReadResult) -> (r: Result<Self, WrongRangeError>)
        ensures
            value@.2.len() == SPI_DATA_LEN,
            r is Ok <==> (value@.0, value@.1) == Self::spec_range(),
            r matches Ok(x) ==> x == Self::spec_read(
                value@.2.subrange(0, Self::spec_range().1 as int),
            ),
            r matches Err(e) ==> e.expected@ == Self::spec_range() && e.got@ == (
                value@.0,
                value@.1,
            ),
    {
        decode_read_result(&value)
    }
}

impl vstd::std_specs::convert::TryFromSpecImpl<SPIReadResult> for SensorCalibration {
    open spec fn obeys_try_from_spec() -> bool {
        true
    }

    open spec fn try_from_spec(value: SPIReadResult) -> Result<Self, WrongRangeError> {
        decode_spi::<SensorCalibration>((value@.0, value@.1), value@.2)
    }
}

impl From<UserSensorCalibration> for SPIReadResult {
    fn from(record: UserSensorCalibration) -> (r: SPIReadResult)
        ensures
            r@ == spi_view_of(record),
    {
        let r = read_result_of(&record);
        proof {
            lemma_read_result_with(r);
        }
        r
    }
}

impl vstd::std_specs::convert::FromSpecImpl<UserSensorCalibration> for SPIReadResult {
    open spec fn obeys_from_spec() -> bool {
        true
    }

    open spec fn from_spec(record: UserSensorCalibration) -> SPIReadResult {
        read_result_with(spi_view_of(record))
    }
}

impl TryFrom<SPIReadResult> for UserSensorCalibration {
    type Error = WrongRangeError;

    fn try_from(value: SPIReadResult) -> (r: Result<Self, WrongRangeError>)
        ensures
            value@.2.len() == SPI_DATA_LEN,
            r is Ok <==> (value@.0, value@.1) == Self::spec_range(),
            r matches Ok(x) ==> x == Self::spec_read(
                value@.2.subrange(0, Self::spec_range().1 as int),
            ),
            r matches Err(e) ==> e.expected@ == Self::spec_range() && e.got@ == (
                value@.0,
                value@.1,
            ),
    {
        decode_read_result(&value)
    }
}

impl vstd::std_specs::convert::TryFromSpecImpl<SPIReadResult> for UserSensorCalibration {
    open spec fn obeys_try_from_spec() -> bool {
        true
    }

    open spec fn try_from_spec(value: SPIReadResult) -> Result<Self, WrongRangeError> {
        decode_spi::<UserSensorCalibration>((value@.0, value@.1), value@.2)
    }
}

impl From<UserSensorCalibration> for SPIWriteRequest {
    fn from(record: UserSensorCalibration) -> (r: SPIWriteRequest)
        ensures
            r@ == spi_view_of(record),
    {
        let r = write_request_of(&record);
        proof {
            lemma_write_request_with(r);
        }
        r
    }
}

impl vstd::std_specs::convert::FromSpecImpl<UserSensorCalibration> for SPIWriteRequest {
    open spec fn obeys_from_spec() -> bool {
        true
    }

    open spec fn from_spec(record: UserSensorCalibration) -> SPIWriteRequest {
        write_request_with(spi_view_of(record))
    }
}

/// Which of the controller's colours are to be shown.
#[derive(Copy, Clone, Debug, PartialEq, Eq, Structural)]
pub enum UseSPIColors {
    No,
    WithoutGrip,
    IncludingGrip,
}

impl WireId for UseSPIColors {
    open spec fn spec_to_u8(self) -> u8 {
        match self {
            UseSPIColors::No => 0,
            UseSPIColors::WithoutGrip => 1,
            UseSPIColors::IncludingGrip => 2,
        }
    }

    open spec fn spec_from_u8(b: u8) -> Option<Self> {
        match b {
            0 => Some(UseSPIColors::No),
            1 => Some(UseSPIColors::WithoutGrip),
            2 => Some(UseSPIColors::IncludingGrip),
            _ => None,
        }
    }

    proof fn lemma_wire_id(id: Self, b: u8) {
    }

    fn from_u8(b: u8) -> (r: Option<Self>) {
        match b {
            0 => Some(UseSPIColors::No),
            1 => Some(UseSPIColors::WithoutGrip),
            2 => Some(UseSPIColors::IncludingGrip),
            _ => None,
        }
    }

    fn to_u8(&self) -> (r: u8) {
        match self {
            UseSPIColors::No => 0,
            UseSPIColors::WithoutGrip => 1,
            UseSPIColors::IncludingGrip => 2,
        }
    }
}

impl Bytes for RawId<UseSPIColors> {
    open spec fn byte_len() -> nat {
        1
    }

    open spec fn spec_bytes(self) -> Seq<u8> {
        seq![self@]
    }

    open spec fn spec_read(b: Seq<u8>) -> Self {
        raw_id_with(b[0])
    }

    proof fn lemma_bytes(self, b: Seq<u8>) {
        lemma_raw_id_with::<UseSPIColors>(self@, self);
        if b.len() == 1 {
            lemma_raw_id_with::<UseSPIColors>(b[0], self);
            assert(Self::spec_read(b).spec_bytes() =~= b);
        }
    }

    fn write_bytes(&self, out: &mut Vec<u8>) {
        let ghost start = out@;
        out.push(self.to_byte());
        assert(out@ =~= start + self.spec_bytes());
    }

    fn read_bytes(b: &[u8], at: usize) -> (r: Self) {
        let r = RawId::new(b[at]);
        proof {
            lemma_raw_id_with::<UseSPIColors>(b@[at as int], r);
        }
        r
    }
}

impl SPI for RawId<UseSPIColors> {
    open spec fn spec_range() -> (u32, u8) {
        (0x601B, 1)
    }

    proof fn lemma_range() {
    }

    fn range() -> (r: SPIRange) {
        SPIRange(0x601B, 1)
    }
}

/// Why a flash read reply did not give the colour-use flag.
#[derive(Copy, Clone, Debug)]
pub enum UseSPIColorsError {
    /// The reply was read from another region.
    WrongRange(WrongRangeError),
    /// The flag's byte names no known setting.
    UnknownValue(u8),
}

/// What decoding a flash read reply as the colour-use flag gives.
pub open spec fn decode_use_spi_colors(got: (u32, u8), data: Seq<u8>) -> Result<
    UseSPIColors,
    UseSPIColorsError,
> {
    match decode_spi::<RawId<UseSPIColors>>(got, data) {
        Ok(id) => match UseSPIColors::spec_from_u8(id@) {
            Some(c) => Ok(c),
            None => Err(UseSPIColorsError::UnknownValue(id@)),
        },
        Err(e) => Err(UseSPIColorsError::WrongRange(e)),
    }
}

impl TryFrom<SPIReadResult> for UseSPIColors {
    type Error = UseSPIColorsError;

    fn try_from(value: SPIReadResult) -> (r: Result<Self, UseSPIColorsError>)
        ensures
            r is Ok <==> ((value@.0, value@.1) == (0x601Bu32, 1u8)
                && UseSPIColors::spec_from_u8(value@.2[0]) is Some),
            r matches Ok(c) ==> c.spec_to_u8() == value@.2[0],
            r matches Err(UseSPIColorsError::WrongRange(e)) ==> e.expected@ == (0x601Bu32, 1u8)
                && e.got@ == (value@.0, value@.1),
            r matches Err(UseSPIColorsError::UnknownValue(b)) ==> b == value@.2[0] && (value@.0,
                value@.1) == (0x601Bu32, 1u8),
    {
        proof {
            lemma_raw_id_with::<UseSPIColors>(value@.2[0], RawId::<UseSPIColors>::spec_read(
                value@.2.subrange(0, 1),
            ));
            UseSPIColors::lemma_wire_id(UseSPIColors::No, value@.2[0]);
            assert(value@.2.subrange(0, 1)[0] == value@.2[0]);
        }
        match decode_read_result::<RawId<UseSPIColors>>(&value) {
            Ok(id) => match id.try_into() {
                Some(c) => Ok(c),
                None => Err(UseSPIColorsError::UnknownValue(id.to_byte())),
            },
            Err(e) => Err(UseSPIColorsError::WrongRange(e)),
        }
    }
}

impl vstd::std_specs::convert::TryFromSpecImpl<SPIReadResult> for UseSPIColors {
    open spec fn obeys_try_from_spec() -> bool {
        true
    }

    open spec fn try_from_spec(value: SPIReadResult) -> Result<Self, UseSPIColorsError> {
        decode_use_spi_colors((value@.0, value@.1), value@.2)
    }
}

impl From<UseSPIColors> for SPIWriteRequest {
    fn from(c: UseSPIColors) -> (r: SPIWriteRequest)
        ensures
            r@ == (0x601Bu32, 1u8, padded(seq![c.spec_to_u8()])),
    {
        let id = RawId::<UseSPIColors>::new(c.to_u8());
        let r = write_request_of(&id);
        proof {
            lemma_write_request_with(r);
        }
        r
    }
}

impl vstd::std_specs::convert::FromSpecImpl<UseSPIColors> for SPIWriteRequest {
    open spec fn obeys_from_spec() -> bool {
        true
    }

    open spec fn from_spec(c: UseSPIColors) -> SPIWriteRequest {
        write_request_with((0x601B, 1, padded(seq![c.spec_to_u8()])))
    }
}

/// The regions of flash whose contents are known.
#[derive(Copy, Clone, Debug, PartialEq, Eq, Structural)]
pub enum SPIRegion {
    /// The serial number.
    SerialNumber,
    /// The factory calibration of the motion sensors.
    FactorySensorCalibration,
    /// The factory calibration of the sticks.
    FactorySticksCalibration,
    /// Whether the controller's colours are to be used.
    ColorInUse,
    /// The controller's colours.
    ControllerColor,
    /// A horizontal offset, then stick parameters of unknown meaning.
    StickParameters1,
    /// Further stick parameters of unknown meaning.
    StickParameters2,
    /// The user calibration of the sticks.
    UserSticksCalibration,
    /// The user calibration of the motion sensors.
    UserSensorCalibration,
}

/// The known region at `offset` with `size` bytes, if any.
pub open spec fn region_of(offset: u32, size: u8) -> Option<SPIRegion> {
    match (offset, size) {
        (0x6000, 16) => Some(SPIRegion::SerialNumber),
        (0x6020, 24) => Some(SPIRegion::FactorySensorCalibration),
        (0x603D, 18) => Some(SPIRegion::FactorySticksCalibration),
        (0x601B, 1) => Some(SPIRegion::ColorInUse),
        (0x6050, 12) => Some(SPIRegion::ControllerColor),
        (0x6080, 24) => Some(SPIRegion::StickParameters1),
        (0x6098, 18) => Some(SPIRegion::StickParameters2),
        (0x8010, 22) => Some(SPIRegion::UserSticksCalibration),
        (0x8026, 26) => Some(SPIRegion::UserSensorCalibration),
        _ => None,
    }
}

impl SPIRange {
    /// The known region that the range covers exactly, if any.
    pub fn known_region(&self) -> (r: Option<SPIRegion>)
        ensures
            r == region_of(self@.0, self@.1),
    {
        match (self.0, self.1) {
            (0x6000, 16) => Some(SPIRegion::SerialNumber),
            (0x6020, 24) => Some(SPIRegion::FactorySensorCalibration),
            (0x603D, 18) => Some(SPIRegion::FactorySticksCalibration),
            (0x601B, 1) => Some(SPIRegion::ColorInUse),
            (0x6050, 12) => Some(SPIRegion::ControllerColor),
            (0x6080, 24) => Some(SPIRegion::StickParameters1),
            (0x6098, 18) => Some(SPIRegion::StickParameters2),
            (0x8010, 22) => Some(SPIRegion::UserSticksCalibration),
            (0x8026, 26) => Some(SPIRegion::UserSensorCalibration),
            _ => None,
        }
    }
}

} // verus!
