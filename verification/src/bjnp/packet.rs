//! BJNP protocol constants and packet header.
//!
//! The BJNP protocol wraps USB commands in UDP/TCP packets.
//! All multi-byte fields are big-endian.
use vstd::prelude::*;
use vstd::string::*;

use crate::error::PixmaError;
use crate::text::{append_decimal, append_hex2, decimal, hex2, string_of};
use crate::wire::{
    be16, be32, from_be16, from_be32, lemma_be16_roundtrip, lemma_be32_roundtrip,
    lemma_from_be16_roundtrip, lemma_from_be32_roundtrip, u16_from_be, u16_to_be, u32_from_be,
    u32_to_be,
};

verus! {

/// Length of a BJNP header in bytes.
pub const HEADER_SIZE: usize = 16;

/// The magic that opens every BJNP packet: `BJNP`.
pub open spec fn bjnp_magic() -> Seq<u8> {
    seq![0x42u8, 0x4Au8, 0x4Eu8, 0x50u8]
}

/// Device type occupies the low seven bits of byte 4; bit 7 marks a response.
#[derive(Debug, Clone, Copy, PartialEq, Eq, Structural)]
pub enum DeviceType {
    Print,
    Scan,
}

impl DeviceType {
    /// The wire code of the device type.
    pub open spec fn spec_code(self) -> u8 {
        match self {
            DeviceType::Print => 0x01,
            DeviceType::Scan => 0x02,
        }
    }

    /// The wire code of the device type.
    pub fn code(self) -> (c: u8)
        ensures
            c == self.spec_code(),
    {
        match self {
            DeviceType::Print => 0x01,
            DeviceType::Scan => 0x02,
        }
    }
}

/// Command codes sent over UDP or TCP.
#[derive(Debug, Clone, Copy, PartialEq, Eq, Structural)]
pub enum CommandCode {
    Discover,
    JobDetails,
    Close,
    TcpRead,
    TcpSend,
    GetId,
}

impl CommandCode {
    /// The wire code of the command.
    pub open spec fn spec_code(self) -> u8 {
        match self {
            CommandCode::Discover => 0x01,
            CommandCode::JobDetails => 0x10,
            CommandCode::Close => 0x11,
            CommandCode::TcpRead => 0x20,
            CommandCode::TcpSend => 0x21,
            CommandCode::GetId => 0x30,
        }
    }

    /// The wire code of the command.
    pub fn code(self) -> (c: u8)
        ensures
            c == self.spec_code(),
    {
        match self {
            CommandCode::Discover => 0x01,
            CommandCode::JobDetails => 0x10,
            CommandCode::Close => 0x11,
            CommandCode::TcpRead => 0x20,
            CommandCode::TcpSend => 0x21,
            CommandCode::GetId => 0x30,
        }
    }
}

/// The device type whose code is the low seven bits of `raw`.
pub open spec fn device_type_of(raw: u8) -> Option<DeviceType> {
    if raw % 128 == 0x01 {
        Some(DeviceType::Print)
    } else if raw % 128 == 0x02 {
        Some(DeviceType::Scan)
    } else {
        None
    }
}

/// The command whose code is `raw`.
pub open spec fn command_of(raw: u8) -> Option<CommandCode> {
    if raw == 0x01 {
        Some(CommandCode::Discover)
    } else if raw == 0x10 {
        Some(CommandCode::JobDetails)
    } else if raw == 0x11 {
        Some(CommandCode::Close)
    } else if raw == 0x20 {
        Some(CommandCode::TcpRead)
    } else if raw == 0x21 {
        Some(CommandCode::TcpSend)
    } else if raw == 0x30 {
        Some(CommandCode::GetId)
    } else {
        None
    }
}

/// A 16-byte BJNP packet header.
#[derive(Debug, Clone, PartialEq, Eq, Structural)]
pub struct BjnpHeader {
    pub device_type: DeviceType,
    pub is_response: bool,
    pub command: CommandCode,
    pub seq_no: u16,
    pub session_id: u16,
    pub payload_len: u32,
}

/// The header that `buf` starts with, if its first 16 bytes are a valid header.
pub open spec fn parse_header(buf: Seq<u8>) -> Option<BjnpHeader> {
    if buf.len() < 16 || buf.subrange(0, 4) != bjnp_magic() {
        None
    } else {
        match (device_type_of(buf[4]), command_of(buf[5])) {
            (Some(device_type), Some(command)) => Some(
                BjnpHeader {
                    device_type,
                    is_response: buf[4] >= 0x80,
                    command,
                    seq_no: from_be16(buf[8], buf[9]),
                    session_id: from_be16(buf[10], buf[11]),
                    payload_len: from_be32(buf[12], buf[13], buf[14], buf[15]),
                },
            ),
            _ => None,
        }
    }
}

/// The message of the `InvalidPacket` error for a buffer that holds no valid header.
pub open spec fn header_error_message(buf: Seq<u8>) -> Seq<char> {
    if buf.len() < 16 {
        "header too short: "@ + decimal(buf.len()) + " bytes"@
    } else if buf.subrange(0, 4) != bjnp_magic() {
        "bad magic: ["@ + hex2(buf[0]) + ", "@ + hex2(buf[1]) + ", "@ + hex2(buf[2]) + ", "@
            + hex2(buf[3]) + "]"@
    } else if device_type_of(buf[4]) is None {
        "unknown device type: 0x"@ + hex2((buf[4] % 128) as u8)
    } else {
        "unknown command: 0x"@ + hex2(buf[5])
    }
}

impl BjnpHeader {
    /// Byte 4 of the header: the device code, with bit 7 set for a response.
    pub open spec fn spec_device_byte(self) -> u8 {
        (self.device_type.spec_code() + if self.is_response {
            0x80u8
        } else {
            0u8
        }) as u8
    }

    /// The 16 bytes that encode the header.
    pub open spec fn spec_bytes(self) -> Seq<u8> {
        bjnp_magic() + seq![self.spec_device_byte(), self.command.spec_code(), 0u8, 0u8] + be16(
            self.seq_no,
        ) + be16(self.session_id) + be32(self.payload_len)
    }

    /// A request header with sequence number, session and payload length zero.
    pub open spec fn new_spec(device_type: DeviceType, command: CommandCode) -> Self {
        BjnpHeader {
            device_type,
            is_response: false,
            command,
            seq_no: 0,
            session_id: 0,
            payload_len: 0,
        }
    }

    /// A request header with sequence number, session and payload length zero.
    pub fn new(device_type: DeviceType, command: CommandCode) -> (h: Self)
        ensures
            h == Self::new_spec(device_type, command),
    {
        Self { device_type, is_response: false, command, seq_no: 0, session_id: 0, payload_len: 0 }
    }

    /// Encodes the header.
    pub fn to_bytes(&self) -> (buf: [u8; HEADER_SIZE])
        ensures
            buf@ == self.spec_bytes(),
    {
        let code = self.device_type.code();
        let dev = code | if self.is_response {
            0x80u8
        } else {
            0u8
        };
        assert(code == 1 || code == 2 ==> (code | 0x80u8) == code + 0x80 && (code | 0u8) == code)
            by (bit_vector);
        let seq = u16_to_be(self.seq_no);
        let session = u16_to_be(self.session_id);
        let len = u32_to_be(self.payload_len);
        let buf = [
            0x42u8,
            0x4Au8,
            0x4Eu8,
            0x50u8,
            dev,
            self.command.code(),
            0u8,
            0u8,
            seq[0],
            seq[1],
            session[0],
            session[1],
            len[0],
            len[1],
            len[2],
            len[3],
        ];
        assert(buf@ =~= self.spec_bytes());
        buf
    }

    /// Decodes the header at the start of `buf`.
    pub fn from_bytes(buf: &[u8]) -> (res: Result<Self, PixmaError>)
        ensures
            match parse_header(buf@) {
                Some(h) => res matches Ok(r) && r == h,
                None => res matches Err(PixmaError::InvalidPacket(m)) && m@ == header_error_message(
                    buf@,
                ),
            },
    {
        if buf.len() < HEADER_SIZE {
            let mut m = string_of("header too short: ");
            append_decimal(&mut m, buf.len() as u64);
            m.append(" bytes");
            return Err(PixmaError::InvalidPacket(m));
        }
        if !(buf[0] == 0x42 && buf[1] == 0x4A && buf[2] == 0x4E && buf[3] == 0x50) {
            assert(buf@.subrange(0, 4) != bjnp_magic()) by {
                if buf@.subrange(0, 4) == bjnp_magic() {
                    assert(buf@.subrange(0, 4)[0] == buf@[0]);
                    assert(buf@.subrange(0, 4)[1] == buf@[1]);
                    assert(buf@.subrange(0, 4)[2] == buf@[2]);
                    assert(buf@.subrange(0, 4)[3] == buf@[3]);
                }
            }
            let mut m = string_of("bad magic: [");
            append_hex2(&mut m, buf[0]);
            m.append(", ");
            append_hex2(&mut m, buf[1]);
            m.append(", ");
            append_hex2(&mut m, buf[2]);
            m.append(", ");
            append_hex2(&mut m, buf[3]);
            m.append("]");
            return Err(PixmaError::InvalidPacket(m));
        }
        assert(buf@.subrange(0, 4) =~= bjnp_magic());
        let raw_dev = buf[4];
        let is_response = raw_dev & 0x80 != 0;
        let low = raw_dev & 0x7F;
        assert((raw_dev & 0x80 != 0) == (raw_dev >= 0x80) && (raw_dev & 0x7F) == raw_dev % 128)
            by (bit_vector);
        let device_type = match low {
            0x01 => DeviceType::Print,
            0x02 => DeviceType::Scan,
            other => {
                let mut m = string_of("unknown device type: 0x");
                append_hex2(&mut m, other);
                return Err(PixmaError::InvalidPacket(m));
            },
        };
        let command = match buf[5] {
            0x01 => CommandCode::Discover,
            0x10 => CommandCode::JobDetails,
            0x11 => CommandCode::Close,
            0x20 => CommandCode::TcpRead,
            0x21 => CommandCode::TcpSend,
            0x30 => CommandCode::GetId,
            other => {
                let mut m = string_of("unknown command: 0x");
                append_hex2(&mut m, other);
                return Err(PixmaError::InvalidPacket(m));
            },
        };
        let seq_no = u16_from_be(buf[8], buf[9]);
        let session_id = u16_from_be(buf[10], buf[11]);
        let payload_len = u32_from_be(buf[12], buf[13], buf[14], buf[15]);
        Ok(Self { device_type, is_response, command, seq_no, session_id, payload_len })
    }
}

/// Decoding the encoding of any header gives the same header back.
pub proof fn lemma_header_roundtrip(h: BjnpHeader)
    ensures
        parse_header(h.spec_bytes()) == Some(h),
{
    let b = h.spec_bytes();
    assert(b.len() == 16);
    assert(b.subrange(0, 4) =~= bjnp_magic());
    assert(b[4] == h.spec_device_byte());
    assert(b[5] == h.command.spec_code());
    assert(b[8] == be16(h.seq_no)[0] && b[9] == be16(h.seq_no)[1]);
    assert(b[10] == be16(h.session_id)[0] && b[11] == be16(h.session_id)[1]);
    assert(b[12] == be32(h.payload_len)[0] && b[13] == be32(h.payload_len)[1]);
    assert(b[14] == be32(h.payload_len)[2] && b[15] == be32(h.payload_len)[3]);
    lemma_be16_roundtrip(h.seq_no);
    lemma_be16_roundtrip(h.session_id);
    lemma_be32_roundtrip(h.payload_len);
}

/// A valid header is determined by its first 16 bytes, save the two reserved
/// bytes 6 and 7: encoding the decoded header gives those bytes back with the
/// reserved ones cleared.
pub proof fn lemma_header_canonical(buf: Seq<u8>)
    requires
        parse_header(buf) is Some,
    ensures
        parse_header(buf)->0.spec_bytes() == buf.subrange(0, 16).update(6, 0u8).update(7, 0u8),
{
    let h = parse_header(buf)->0;
    lemma_from_be16_roundtrip(buf[8], buf[9]);
    lemma_from_be16_roundtrip(buf[10], buf[11]);
    lemma_from_be32_roundtrip(buf[12], buf[13], buf[14], buf[15]);
    assert(buf.subrange(0, 4) == bjnp_magic());
    assert(buf[0] == buf.subrange(0, 4)[0] && buf[1] == buf.subrange(0, 4)[1]);
    assert(buf[2] == buf.subrange(0, 4)[2] && buf[3] == buf.subrange(0, 4)[3]);
    assert(h.spec_device_byte() == buf[4]);
    assert(h.spec_bytes() =~= buf.subrange(0, 16).update(6, 0u8).update(7, 0u8));
}

} // verus!
