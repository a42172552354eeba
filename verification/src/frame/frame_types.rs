use crate::utils::byte_buffer::push_range;
use crate::utils::unmask_payload::{apply_mask, unmask_payload};
use vstd::prelude::*;
use vstd::slice::slice_subrange;

verus! {

/// The purpose of a frame, carried in the low four bits of its first byte.
#[derive(Debug, Clone, Copy, PartialEq, Eq, Structural)]
pub enum Opcode {
    Continuation,
    Text,
    Binary,
    Close,
    Ping,
    Pong,
    Unknow,
}

impl Opcode {
    /// The opcode that a four-bit wire value stands for; every value
    /// without a meaning of its own is `Unknow`.
    pub open spec fn from_code(code: int) -> Opcode {
        if code == 0 {
            Opcode::Continuation
        } else if code == 1 {
            Opcode::Text
        } else if code == 2 {
            Opcode::Binary
        } else if code == 8 {
            Opcode::Close
        } else if code == 9 {
            Opcode::Ping
        } else if code == 10 {
            Opcode::Pong
        } else {
            Opcode::Unknow
        }
    }

    /// The four-bit wire value of an opcode.
    pub open spec fn code(self) -> int {
        match self {
            Opcode::Continuation => 0,
            Opcode::Text => 1,
            Opcode::Binary => 2,
            Opcode::Close => 8,
            Opcode::Ping => 9,
            Opcode::Pong => 10,
            Opcode::Unknow => 15,
        }
    }

    /// Control frames manage the connection itself.
    pub open spec fn spec_is_control(self) -> bool {
        self == Opcode::Close || self == Opcode::Ping || self == Opcode::Pong
    }

    /// Whether a frame with this opcode is a control frame.
    #[verifier::when_used_as_spec(spec_is_control)]
    pub fn is_control(self) -> (control: bool)
        ensures
            control == self.spec_is_control(),
    {
        match self {
            Opcode::Close | Opcode::Ping | Opcode::Pong => true,
            _ => false,
        }
    }

    /// Reads an opcode from four bits, most significant first.
    fn with_bits(data: [u8; 4]) -> (opcode: Self)
        requires
            forall|i: int| 0 <= i < 4 ==> data[i] <= 1,
        ensures
            opcode == Self::from_code(data[0] * 8 + data[1] * 4 + data[2] * 2 + data[3]),
    {
        let mut result: u64 = 0;
        let mut i: usize = 0;
        while i < 4
            invariant
                i <= 4,
                forall|k: int| 0 <= k < 4 ==> data[k] <= 1,
                i == 0 ==> result == 0,
                i == 1 ==> result == data[0],
                i == 2 ==> result == data[0] * 2 + data[1],
                i == 3 ==> result == data[0] * 4 + data[1] * 2 + data[2],
                i == 4 ==> result == data[0] * 8 + data[1] * 4 + data[2] * 2 + data[3],
            decreases 4 - i,
        {
            result = result * 2 + data[i] as u64;
            i += 1;
        }
        match result {
            0 => Self::Continuation,
            1 => Self::Text,
            2 => Self::Binary,
            8 => Self::Close,
            9 => Self::Ping,
            10 => Self::Pong,
            _ => Self::Unknow,
        }
    }

    /// The four-bit wire value of the opcode.
    pub fn to_bytes(&self) -> (code: u8)
        ensures
            code == self.code(),
    {
        match self {
            Opcode::Continuation => 0b0000,
            Opcode::Text => 0b0001,
            Opcode::Binary => 0b0010,
            Opcode::Close => 0b1000,
            Opcode::Ping => 0b1001,
            Opcode::Pong => 0b1010,
            Opcode::Unknow => 0b1111,
        }
    }
}

/// A payload length together with the size class that carried it on the wire.
#[derive(Debug, Clone, Copy, PartialEq, Eq, Structural)]
pub enum PayloadLen {
    /// Held in the seven bits of the second header byte.
    LengthU8(u8),
    /// Held in two further bytes.
    LengthU16(u16),
    /// Held in eight further bytes.
    LengthU64(u64),
    Unknow,
}

/// Lengths from here on have the reserved top bit of the 64-bit field set.
pub const RESERVED_LEN: u64 = 0x8000_0000_0000_0000;

impl PayloadLen {
    /// The number of payload bytes that the length stands for.
    pub open spec fn value(self) -> int {
        match self {
            PayloadLen::LengthU8(len) => len as int,
            PayloadLen::LengthU16(len) => len as int,
            PayloadLen::LengthU64(len) => len as int,
            PayloadLen::Unknow => 0,
        }
    }

    /// The smallest size class that can hold `size`.
    pub open spec fn spec_from_size(size: int) -> PayloadLen {
        if size <= 125 {
            PayloadLen::LengthU8(size as u8)
        } else if size <= 65535 {
            PayloadLen::LengthU16(size as u16)
        } else {
            PayloadLen::LengthU64(size as u64)
        }
    }

    /// The size class that a seven-bit length indicator announces. For the two
    /// extended classes the length itself is still to be read and stands at
    /// zero.
    pub open spec fn class_of(indicator: int) -> PayloadLen {
        if indicator == 126 {
            PayloadLen::LengthU16(0)
        } else if indicator == 127 {
            PayloadLen::LengthU64(0)
        } else {
            PayloadLen::LengthU8(indicator as u8)
        }
    }

    /// The seven-bit length indicator of the second header byte.
    pub open spec fn indicator(self) -> int {
        match self {
            PayloadLen::LengthU8(len) => len as int,
            PayloadLen::LengthU16(_) => 126,
            PayloadLen::LengthU64(_) => 127,
            PayloadLen::Unknow => 0,
        }
    }

    /// The number of header bytes that follow the second byte to hold the
    /// length.
    pub open spec fn extension_len(self) -> int {
        match self {
            PayloadLen::LengthU8(_) => 0,
            PayloadLen::LengthU16(_) => 2,
            PayloadLen::LengthU64(_) => 8,
            PayloadLen::Unknow => 0,
        }
    }

    /// A length that a frame on the wire can have: the inline class holds at
    /// most 125 and the top bit of the 64-bit class is clear.
    pub open spec fn wf(self) -> bool {
        match self {
            PayloadLen::LengthU8(len) => len <= 125,
            PayloadLen::LengthU16(_) => true,
            PayloadLen::LengthU64(len) => len < RESERVED_LEN,
            PayloadLen::Unknow => false,
        }
    }

    /// Reads the size class from the seven bits of the length indicator, most
    /// significant first.
    fn with_size(data: [u8; 7]) -> (len: Self)
        requires
            forall|i: int| 0 <= i < 7 ==> data[i] <= 1,
        ensures
            len == Self::class_of(
                data[0] * 64 + data[1] * 32 + data[2] * 16 + data[3] * 8 + data[4] * 4 + data[5] * 2
                    + data[6],
            ),
    {
        let mut result: u64 = 0;
        let mut i: usize = 0;
        while i < 7
            invariant
                i <= 7,
                forall|k: int| 0 <= k < 7 ==> data[k] <= 1,
                i == 0 ==> result == 0,
                i == 1 ==> result == data[0],
                i == 2 ==> result == data[0] * 2 + data[1],
                i == 3 ==> result == data[0] * 4 + data[1] * 2 + data[2],
                i == 4 ==> result == data[0] * 8 + data[1] * 4 + data[2] * 2 + data[3],
                i == 5 ==> result == data[0] * 16 + data[1] * 8 + data[2] * 4 + data[3] * 2
                    + data[4],
                i == 6 ==> result == data[0] * 32 + data[1] * 16 + data[2] * 8 + data[3] * 4
                    + data[4] * 2 + data[5],
                i == 7 ==> result == data[0] * 64 + data[1] * 32 + data[2] * 16 + data[3] * 8
                    + data[4] * 4 + data[5] * 2 + data[6],
            decreases 7 - i,
        {
            result = result * 2 + data[i] as u64;
            i += 1;
        }
        match result {
            126 => Self::LengthU16(0),
            127 => Self::LengthU64(0),
            _ => Self::LengthU8(result as u8),
        }
    }

    /// The length of a payload of `size` bytes, in the smallest class that
    /// holds it.
    pub fn from_size(size: usize) -> (len: Self)
        ensures
            len == Self::spec_from_size(size as int),
            len.value() == size,
    {
        if size <= 125 {
            Self::LengthU8(size as u8)
        } else if size <= 65535 {
            Self::LengthU16(size as u16)
        } else {
            Self::LengthU64(size as u64)
        }
    }

    /// The number of payload bytes that the length stands for, as `value`
    /// says.
    pub fn len(self) -> (len: u64)
        ensures
            len == self.value(),
    {
        match self {
            PayloadLen::LengthU8(len) => len as u64,
            PayloadLen::LengthU16(len) => len as u64,
            PayloadLen::LengthU64(len) => len,
            PayloadLen::Unknow => 0,
        }
    }

    /// The length as a `usize`, where it has one.
    pub fn try_into(self) -> (size: Result<usize, &'static str>)
        ensures
            match size {
                Ok(n) => self != PayloadLen::Unknow && n == self.value(),
                Err(e) => (self == PayloadLen::Unknow || self.value() > usize::MAX) && e@
                    == "Conversion failed"@,
            },
    {
        match self {
            PayloadLen::LengthU8(len) => Ok(len as usize),
            PayloadLen::LengthU16(len) => Ok(len as usize),
            PayloadLen::LengthU64(len) => {
                if len <= usize::MAX as u64 {
                    Ok(len as usize)
                } else {
                    Err("Conversion failed")
                }
            },
            PayloadLen::Unknow => Err("Conversion failed"),
        }
    }
}

/// Why a buffer did not decode.
#[derive(Debug, Clone, Copy, PartialEq, Eq, Structural)]
pub enum DecodeError {
    /// Not an error but a signal to try again: the buffer ends before the
    /// header or the payload does, and this many bytes are still required.
    Incomplete(u64),
    /// A reserved bit is set, a control frame announces more than 125 bytes,
    /// or a 64-bit length has its top bit set.
    MalformedHeader,
}

/// What a parsed header says of the frame's extent.
#[derive(Debug, Clone, Copy, PartialEq, Eq, Structural)]
pub struct HeaderInfo {
    /// The bytes of the header, masking key included.
    pub header_len: usize,
    /// The bytes of payload that follow the header.
    pub payload_len: u64,
}

/// The unit of exchange on the wire.
#[derive(Debug, Clone, PartialEq, Eq)]
pub struct Frame {
    pub is_final: bool,
    pub rsv1: bool,
    pub rsv2: bool,
    pub rsv3: bool,
    pub opcode: Opcode,
    pub mask: bool,
    pub payload_length: PayloadLen,
    pub masking_key: Option<[u8; 4]>,
    pub payload_data: Option<Vec<u8>>,
}

/// A frame as a mathematical value.
pub struct FrameView {
    pub is_final: bool,
    pub rsv1: bool,
    pub rsv2: bool,
    pub rsv3: bool,
    pub opcode: Opcode,
    pub mask: bool,
    pub payload_length: PayloadLen,
    pub masking_key: Option<Seq<u8>>,
    pub payload_data: Option<Seq<u8>>,
}

impl View for Frame {
    type V = FrameView;

    open spec fn view(&self) -> FrameView {
        FrameView {
            is_final: self.is_final,
            rsv1: self.rsv1,
            rsv2: self.rsv2,
            rsv3: self.rsv3,
            opcode: self.opcode,
            mask: self.mask,
            payload_length: self.payload_length,
            masking_key: match self.masking_key {
                Some(key) => Some(key@),
                None => None,
            },
            payload_data: match self.payload_data {
                Some(data) => Some(data@),
                None => None,
            },
        }
    }
}

/// The number that two bytes hold, most significant byte first.
pub open spec fn be16(bytes: Seq<u8>) -> int
    recommends
        bytes.len() == 2,
{
    bytes[0] * 256 + bytes[1]
}

/// The number that eight bytes hold, most significant byte first.
pub open spec fn be64(bytes: Seq<u8>) -> int
    recommends
        bytes.len() == 8,
{
    ((((((bytes[0] * 256 + bytes[1]) * 256 + bytes[2]) * 256 + bytes[3]) * 256 + bytes[4]) * 256
        + bytes[5]) * 256 + bytes[6]) * 256 + bytes[7]
}

/// The two bytes that hold `value`, most significant byte first.
pub open spec fn be16_bytes(value: int) -> Seq<u8>
    recommends
        0 <= value < 0x1_0000,
{
    seq![(value / 256) as u8, (value % 256) as u8]
}

/// The eight bytes that hold `value`, most significant byte first.
pub open spec fn be64_bytes(value: int) -> Seq<u8>
    recommends
        0 <= value < 0x1_0000_0000_0000_0000,
{
    seq![
        (value / 0x100_0000_0000_0000) as u8,
        (value / 0x1_0000_0000_0000 % 256) as u8,
        (value / 0x100_0000_0000 % 256) as u8,
        (value / 0x1_0000_0000 % 256) as u8,
        (value / 0x100_0000 % 256) as u8,
        (value / 0x1_0000 % 256) as u8,
        (value / 0x100 % 256) as u8,
        (value % 256) as u8,
    ]
}

impl FrameView {
    /// The bytes that the header takes on the wire: two, the extended
    /// length, and the masking key of a masked frame.
    pub open spec fn header_len(self) -> int {
        2 + self.payload_length.extension_len() + if self.mask {
            4int
        } else {
            0int
        }
    }

    /// The bytes that the whole frame takes on the wire.
    pub open spec fn frame_len(self) -> int {
        self.header_len() + self.payload_length.value()
    }

    /// What every header that the codec reads or writes meets: no reserved
    /// bit is set, the length is one that the wire can carry, a control frame
    /// announces at most 125 bytes, and the masking key is there if and only
    /// if the frame is masked.
    pub open spec fn header_wf(self) -> bool {
        &&& !self.rsv1 && !self.rsv2 && !self.rsv3
        &&& self.payload_length.wf()
        &&& self.opcode.is_control() ==> self.payload_length.value() <= 125
        &&& self.mask <==> self.masking_key is Some
        &&& self.masking_key matches Some(key) ==> key.len() == 4
    }

    /// A whole frame: a header as above, and a payload of the length that the
    /// header announces.
    pub open spec fn wf(self) -> bool {
        &&& self.header_wf()
        &&& self.payload_data matches Some(payload) && payload.len()
            == self.payload_length.value()
    }

    /// A frame that can be written to the wire: its length is one that the
    /// wire can carry, its payload is there and as long as announced, and its
    /// masking key is there if and only if it is masked.
    pub open spec fn encodable(self) -> bool {
        &&& self.payload_length.wf()
        &&& self.mask <==> self.masking_key is Some
        &&& self.masking_key matches Some(key) ==> key.len() == 4
        &&& self.payload_data matches Some(payload) && payload.len()
            == self.payload_length.value()
    }

    /// The first header byte: the final flag, the reserved bits and the
    /// opcode.
    pub open spec fn first_byte(self) -> int {
        (if self.is_final { 128int } else { 0int }) + (if self.rsv1 { 64int } else { 0int }) + (if self.rsv2 { 32int } else { 0int })
            + (if self.rsv3 { 16int } else { 0int }) + self.opcode.code()
    }

    /// The second header byte: the mask flag and the length indicator of the
    /// smallest class that holds the payload length.
    pub open spec fn second_byte(self) -> int {
        (if self.mask { 128int } else { 0int }) + PayloadLen::spec_from_size(
            self.payload_length.value(),
        ).indicator()
    }

    /// The extended length field of the smallest class that holds the payload
    /// length, empty for the inline class.
    pub open spec fn length_bytes(self) -> Seq<u8> {
        match PayloadLen::spec_from_size(self.payload_length.value()) {
            PayloadLen::LengthU16(len) => be16_bytes(len as int),
            PayloadLen::LengthU64(len) => be64_bytes(len as int),
            _ => Seq::empty(),
        }
    }

    /// The frame on the wire: the two header bytes, the extended length in
    /// the smallest class that holds it, the masking key of a masked frame,
    /// and the payload as the frame holds it.
    pub open spec fn encode(self) -> Seq<u8> {
        seq![self.first_byte() as u8, self.second_byte() as u8] + self.length_bytes() + (
        if self.mask {
            self.masking_key.unwrap()
        } else {
            Seq::empty()
        }) + self.payload_data.unwrap()
    }

    /// What the header at the start of `data` says, or why it cannot be read.
    ///
    /// Fewer than two bytes are incomplete by what is missing of the two. A
    /// reserved bit, or a control frame with an extended length, is malformed
    /// at once. A header that extends beyond the buffer is incomplete by what
    /// is missing of it. A 64-bit length with its top bit set is malformed.
    /// Otherwise the header is parsed, its payload still to come.
    pub open spec fn parse_header(data: Seq<u8>) -> Result<FrameView, DecodeError> {
        if data.len() < 2 {
            Err(DecodeError::Incomplete((2 - data.len()) as u64))
        } else {
            let first = data[0] as int;
            let second = data[1] as int;
            let opcode = Opcode::from_code(first % 16);
            let mask = second >= 128;
            let indicator = second % 128;
            let class = PayloadLen::class_of(indicator);
            let header_len = 2 + class.extension_len() + if mask {
                4int
            } else {
                0int
            };
            if (first / 16) % 8 != 0 {
                Err(DecodeError::MalformedHeader)
            } else if opcode.is_control() && indicator > 125 {
                Err(DecodeError::MalformedHeader)
            } else if data.len() < header_len {
                Err(DecodeError::Incomplete((header_len - data.len()) as u64))
            } else {
                let length = match class {
                    PayloadLen::LengthU16(_) => PayloadLen::LengthU16(
                        be16(data.subrange(2, 4)) as u16,
                    ),
                    PayloadLen::LengthU64(_) => PayloadLen::LengthU64(
                        be64(data.subrange(2, 10)) as u64,
                    ),
                    _ => class,
                };
                if !length.wf() {
                    Err(DecodeError::MalformedHeader)
                } else {
                    Ok(
                        FrameView {
                            is_final: first >= 128,
                            rsv1: false,
                            rsv2: false,
                            rsv3: false,
                            opcode,
                            mask,
                            payload_length: length,
                            masking_key: if mask {
                                Some(data.subrange(header_len - 4, header_len))
                            } else {
                                None
                            },
                            payload_data: None,
                        },
                    )
                }
            }
        }
    }

    /// The frame whose header is `self` and whose payload stands in `data`
    /// behind the header, or why it cannot be read.
    ///
    /// A length that the wire cannot carry is malformed. A buffer that ends
    /// before the payload does is incomplete by what is missing. Otherwise
    /// the payload is exactly the announced number of bytes behind the
    /// header, with the masking key that precedes them removed if the frame
    /// is masked.
    pub open spec fn parse_payload(self, data: Seq<u8>) -> Result<FrameView, DecodeError> {
        let start = self.header_len();
        let end = self.frame_len();
        if !self.payload_length.wf() {
            Err(DecodeError::MalformedHeader)
        } else if data.len() < end {
            Err(DecodeError::Incomplete((end - data.len()) as u64))
        } else {
            let key = data.subrange(start - 4, start);
            Ok(
                FrameView {
                    masking_key: if self.mask {
                        Some(key)
                    } else {
                        None
                    },
                    payload_data: Some(
                        if self.mask {
                            apply_mask(data.subrange(start, end), key)
                        } else {
                            data.subrange(start, end)
                        },
                    ),
                    ..self
                },
            )
        }
    }

    /// The frame at the start of `data`: its header, then its payload.
    pub open spec fn decode(data: Seq<u8>) -> Result<FrameView, DecodeError> {
        match Self::parse_header(data) {
            Ok(header) => header.parse_payload(data),
            Err(e) => Err(e),
        }
    }
}

/// The eight bits of a byte, most significant first.
fn bits_of(byte: u8) -> (bits: [u8; 8])
    ensures
        bits@ == seq![
            byte / 128,
            (byte / 64) % 2,
            (byte / 32) % 2,
            (byte / 16) % 2,
            (byte / 8) % 2,
            (byte / 4) % 2,
            (byte / 2) % 2,
            byte % 2,
        ],
{
    let bits: [u8; 8] = [
        byte / 128,
        (byte / 64) % 2,
        (byte / 32) % 2,
        (byte / 16) % 2,
        (byte / 8) % 2,
        (byte / 4) % 2,
        (byte / 2) % 2,
        byte % 2,
    ];
    assert(bits@ =~= seq![
        byte / 128,
        (byte / 64) % 2,
        (byte / 32) % 2,
        (byte / 16) % 2,
        (byte / 8) % 2,
        (byte / 4) % 2,
        (byte / 2) % 2,
        byte % 2,
    ]);
    bits
}

/// What the first header byte says: the final flag, whether any reserved bit
/// is set, and the opcode.
fn read_first(first: u8) -> (fields: (bool, bool, Opcode))
    ensures
        fields.0 == (first >= 128),
        fields.1 == ((first / 16) % 8 != 0),
        fields.2 == Opcode::from_code((first % 16) as int),
{
    let bits: [u8; 8] = bits_of(first);
    assert(first / 128 <= 1 && (first >= 128) == (first / 128 != 0)) by (bit_vector);
    assert(((first / 16) % 8 != 0) == ((first / 64) % 2 != 0 || (first / 32) % 2 != 0 || (first
        / 16) % 2 != 0)) by (bit_vector);
    assert(first % 16 == ((first / 8) % 2) * 8 + ((first / 4) % 2) * 4 + ((first / 2) % 2) * 2
        + first % 2) by (bit_vector);
    let opcode: Opcode = Opcode::with_bits([bits[4], bits[5], bits[6], bits[7]]);
    (bits[0] != 0, bits[1] != 0 || bits[2] != 0 || bits[3] != 0, opcode)
}

/// What the second header byte says: the mask flag and the size class of the
/// length.
fn read_second(second: u8) -> (fields: (bool, PayloadLen))
    ensures
        fields.0 == (second >= 128),
        fields.1 == PayloadLen::class_of((second % 128) as int),
{
    let bits: [u8; 8] = bits_of(second);
    assert(second / 128 <= 1 && (second >= 128) == (second / 128 != 0)) by (bit_vector);
    assert(second % 128 == ((second / 64) % 2) * 64 + ((second / 32) % 2) * 32 + ((second / 16)
        % 2) * 16 + ((second / 8) % 2) * 8 + ((second / 4) % 2) * 4 + ((second / 2) % 2) * 2
        + second % 2) by (bit_vector);
    let class: PayloadLen = PayloadLen::with_size(
        [bits[1], bits[2], bits[3], bits[4], bits[5], bits[6], bits[7]],
    );
    (bits[0] != 0, class)
}

/// Reads the two bytes at `at` as a number, most significant byte first.
fn read_be16(data: &[u8], at: usize) -> (value: u16)
    requires
        at + 2 <= data.len(),
    ensures
        value == be16(data@.subrange(at as int, at + 2)),
{
    let high: u16 = data[at] as u16;
    let low: u16 = data[at + 1] as u16;
    high * 256 + low
}

/// Reads the eight bytes at `at` as a number, most significant byte first.
fn read_be64(data: &[u8], at: usize) -> (value: u64)
    requires
        at + 8 <= data.len(),
    ensures
        value == be64(data@.subrange(at as int, at + 8)),
{
    let mut value: u64 = data[at] as u64;
    value = value * 256 + data[at + 1] as u64;
    value = value * 256 + data[at + 2] as u64;
    value = value * 256 + data[at + 3] as u64;
    value = value * 256 + data[at + 4] as u64;
    value = value * 256 + data[at + 5] as u64;
    value = value * 256 + data[at + 6] as u64;
    value = value * 256 + data[at + 7] as u64;
    value
}

/// Appends `value` as two bytes, most significant byte first.
fn push_be16(bytes: &mut Vec<u8>, value: u16)
    ensures
        final(bytes)@ == old(bytes)@ + be16_bytes(value as int),
{
    bytes.push((value / 256) as u8);
    bytes.push((value % 256) as u8);
}

/// Appends `value` as eight bytes, most significant byte first.
fn push_be64(bytes: &mut Vec<u8>, value: u64)
    ensures
        final(bytes)@ == old(bytes)@ + be64_bytes(value as int),
{
    bytes.push((value / 0x100_0000_0000_0000) as u8);
    bytes.push((value / 0x1_0000_0000_0000 % 256) as u8);
    bytes.push((value / 0x100_0000_0000 % 256) as u8);
    bytes.push((value / 0x1_0000_0000 % 256) as u8);
    bytes.push((value / 0x100_0000 % 256) as u8);
    bytes.push((value / 0x1_0000 % 256) as u8);
    bytes.push((value / 0x100 % 256) as u8);
    bytes.push((value % 256) as u8);
}

impl Default for Frame {
    /// A final, unmasked frame with an empty payload whose opcode and length
    /// are still to be set.
    fn default() -> (frame: Self)
        ensures
            frame@ == (FrameView {
                is_final: true,
                rsv1: false,
                rsv2: false,
                rsv3: false,
                opcode: Opcode::Unknow,
                mask: false,
                payload_length: PayloadLen::Unknow,
                masking_key: None,
                payload_data: Some(Seq::empty()),
            }),
    {
        Self {
            is_final: true,
            rsv1: false,
            rsv2: false,
            rsv3: false,
            opcode: Opcode::Unknow,
            mask: false,
            payload_length: PayloadLen::Unknow,
            masking_key: None,
            payload_data: Some(Vec::new()),
        }
    }
}

impl Frame {
    /// Reads the header at the start of `data` into `self`.
    ///
    /// On success the frame holds the header, its payload still to come, and
    /// the result tells how long the header is and how many payload bytes
    /// follow it. Otherwise the frame is left as it was and the error says
    /// how many bytes are still required, or that the header is malformed.
    pub fn default_header(&mut self, data: Vec<u8>) -> (parsed: Result<HeaderInfo, DecodeError>)
        ensures
            match FrameView::parse_header(data@) {
                Ok(header) => {
                    &&& final(self)@ == header
                    &&& header.header_wf()
                    &&& parsed == Ok::<HeaderInfo, DecodeError>(
                        HeaderInfo {
                            header_len: header.header_len() as usize,
                            payload_len: header.payload_length.value() as u64,
                        },
                    )
                },
                Err(e) => *final(self) == *old(self) && parsed == Err::<HeaderInfo, DecodeError>(e),
            },
    {
        self.decode_header(data.as_slice())
    }

    /// Reads the header at the start of `data` into `self`, as
    /// `default_header` does, from a buffer that the caller keeps.
    pub fn decode_header(&mut self, data: &[u8]) -> (parsed: Result<HeaderInfo, DecodeError>)
        ensures
            match FrameView::parse_header(data@) {
                Ok(header) => {
                    &&& final(self)@ == header
                    &&& header.header_wf()
                    &&& parsed == Ok::<HeaderInfo, DecodeError>(
                        HeaderInfo {
                            header_len: header.header_len() as usize,
                            payload_len: header.payload_length.value() as u64,
                        },
                    )
                },
                Err(e) => *final(self) == *old(self) && parsed == Err::<HeaderInfo, DecodeError>(e),
            },
    {
        if data.len() < 2 {
            return Err(DecodeError::Incomplete((2 - data.len()) as u64));
        }
        let (is_final, reserved, opcode): (bool, bool, Opcode) = read_first(data[0]);
        let (mask, class): (bool, PayloadLen) = read_second(data[1]);
        if reserved {
            return Err(DecodeError::MalformedHeader);
        }
        let key_len: usize = if mask {
            4
        } else {
            0
        };
        let (payload_length, key_at): (PayloadLen, usize) = match class {
            PayloadLen::LengthU8(_) => (class, 2),
            PayloadLen::LengthU16(_) => {
                if opcode.is_control() {
                    return Err(DecodeError::MalformedHeader);
                }
                if data.len() < 4 + key_len {
                    return Err(DecodeError::Incomplete((4 + key_len - data.len()) as u64));
                }
                (PayloadLen::LengthU16(read_be16(data, 2)), 4)
            },
            _ => {
                if opcode.is_control() {
                    return Err(DecodeError::MalformedHeader);
                }
                if data.len() < 10 + key_len {
                    return Err(DecodeError::Incomplete((10 + key_len - data.len()) as u64));
                }
                let length: u64 = read_be64(data, 2);
                if length >= RESERVED_LEN {
                    return Err(DecodeError::MalformedHeader);
                }
                (PayloadLen::LengthU64(length), 10)
            },
        };
        if data.len() < key_at + key_len {
            return Err(DecodeError::Incomplete((key_at + key_len - data.len()) as u64));
        }
        let masking_key: Option<[u8; 4]> = if mask {
            let key: [u8; 4] = [data[key_at], data[key_at + 1], data[key_at + 2], data[key_at + 3]];
            assert(key@ =~= data@.subrange(key_at as int, key_at + 4));
            Some(key)
        } else {
            None
        };

        self.is_final = is_final;
        self.rsv1 = false;
        self.rsv2 = false;
        self.rsv3 = false;
        self.opcode = opcode;
        self.mask = mask;
        self.payload_length = payload_length;
        self.masking_key = masking_key;
        self.payload_data = None;
        Ok(HeaderInfo { header_len: key_at + key_len, payload_len: payload_length.len() })
    }

    /// Reads the payload that stands in `data` behind the header that `self`
    /// holds, and the masking key in front of it where the frame is masked.
    ///
    /// `data` starts where the frame starts. On success the frame holds
    /// exactly the announced number of payload bytes, unmasked, and the
    /// result is the number of bytes that the whole frame took. Otherwise
    /// the frame is left as it was and the error says how many bytes are
    /// still required, or that the announced length is none that the wire
    /// can carry.
    pub fn default_from(&mut self, data: Vec<u8>) -> (consumed: Result<usize, DecodeError>)
        ensures
            match old(self)@.parse_payload(data@) {
                Ok(frame) => {
                    &&& final(self)@ == frame
                    &&& consumed is Ok
                    &&& consumed->Ok_0 == frame.frame_len()
                    &&& frame.frame_len() <= data@.len()
                },
                Err(e) => *final(self) == *old(self) && consumed == Err::<usize, DecodeError>(e),
            },
    {
        self.decode_payload(data.as_slice())
    }

    /// Reads the payload behind the header that `self` holds, as
    /// `default_from` does, from a buffer that the caller keeps.
    pub fn decode_payload(&mut self, data: &[u8]) -> (consumed: Result<usize, DecodeError>)
        ensures
            match old(self)@.parse_payload(data@) {
                Ok(frame) => {
                    &&& final(self)@ == frame
                    &&& consumed is Ok
                    &&& consumed->Ok_0 == frame.frame_len()
                    &&& frame.frame_len() <= data@.len()
                },
                Err(e) => *final(self) == *old(self) && consumed == Err::<usize, DecodeError>(e),
            },
    {
        let key_len: usize = if self.mask {
            4
        } else {
            0
        };
        let start: usize = match self.payload_length {
            PayloadLen::LengthU8(len) => {
                if len > 125 {
                    return Err(DecodeError::MalformedHeader);
                }
                2 + key_len
            },
            PayloadLen::LengthU16(_) => 4 + key_len,
            PayloadLen::LengthU64(len) => {
                if len >= RESERVED_LEN {
                    return Err(DecodeError::MalformedHeader);
                }
                10 + key_len
            },
            PayloadLen::Unknow => {
                return Err(DecodeError::MalformedHeader);
            },
        };
        let end: u64 = start as u64 + self.payload_length.len();
        if (data.len() as u64) < end {
            return Err(DecodeError::Incomplete(end - data.len() as u64));
        }
        let end: usize = end as usize;
        if self.mask {
            let key: [u8; 4] = [data[start - 4], data[start - 3], data[start - 2], data[start - 1]];
            assert(key@ =~= data@.subrange(start - 4, start as int));
            let masked: &[u8] = slice_subrange(data, start, end);
            self.masking_key = Some(key);
            self.payload_data = Some(unmask_payload(masked, &key));
        } else {
            let mut payload: Vec<u8> = Vec::new();
            push_range(&mut payload, data, start, end);
            self.masking_key = None;
            self.payload_data = Some(payload);
        }
        Ok(end)
    }

    /// The frame as it goes on the wire: the header in the smallest length
    /// class that holds the payload length, the masking key only if the frame
    /// is masked, and the payload as the frame holds it. No masking is
    /// applied.
    pub fn to_bytes(&self) -> (bytes: Vec<u8>)
        requires
            self@.encodable(),
        ensures
            bytes@ == self@.encode(),
    {
        let mut bytes: Vec<u8> = Vec::new();
        let mut first_octal: u8 = self.opcode.to_bytes();
        if self.is_final {
            first_octal += 128;
        }
        if self.rsv1 {
            first_octal += 64;
        }
        if self.rsv2 {
            first_octal += 32;
        }
        if self.rsv3 {
            first_octal += 16;
        }
        let mut second_octal: u8 = if self.mask {
            128
        } else {
            0
        };
        bytes.push(first_octal);

        let length: u64 = self.payload_length.len();
        if length <= 125 {
            second_octal += length as u8;
            bytes.push(second_octal);
        } else if length <= 65535 {
            second_octal += 126;
            bytes.push(second_octal);
            push_be16(&mut bytes, length as u16);
        } else {
            second_octal += 127;
            bytes.push(second_octal);
            push_be64(&mut bytes, length);
        }
        let ghost head = seq![first_octal, second_octal] + self@.length_bytes();

        if let Some(key) = &self.masking_key {
            push_range(&mut bytes, key.as_slice(), 0, 4);
        }
        let ghost keyed = head + if self.mask {
            self@.masking_key.unwrap()
        } else {
            Seq::empty()
        };
        if let Some(payload) = &self.payload_data {
            push_range(&mut bytes, payload.as_slice(), 0, payload.len());
        }
        assert(bytes@ =~= keyed + self@.payload_data.unwrap());
        bytes
    }
}

} // verus!
