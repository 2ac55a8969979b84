//! Framing of a BJNP TCP session: every request carries the session id and
//! the next sequence number.
use vstd::prelude::*;

use crate::bjnp::packet::{BjnpHeader, CommandCode, DeviceType};
use crate::wire::{be32, push_bytes, u32_to_be};

verus! {

/// The numbering state of a BJNP TCP connection to a scanner.
pub struct BjnpSession {
    pub session_id: u16,
    pub seq_no: u16,
}

/// The sequence number that follows `seq` (wrapping at 2^16).
pub open spec fn next_seq_no(seq: u16) -> u16 {
    ((seq + 1) % 0x1_0000) as u16
}

impl BjnpSession {
    /// A session whose first request has sequence number zero.
    pub fn new(session_id: u16) -> (s: Self)
        ensures
            s.session_id == session_id,
            s.seq_no == 0,
    {
        BjnpSession { session_id, seq_no: 0 }
    }

    /// Takes the current sequence number and advances it (wrapping).
    pub fn next_seq(&mut self) -> (seq: u16)
        ensures
            seq == old(self).seq_no,
            final(self).seq_no == next_seq_no(old(self).seq_no),
            final(self).session_id == old(self).session_id,
    {
        let seq = self.seq_no;
        self.seq_no = self.seq_no.wrapping_add(1);
        seq
    }

    /// The bytes of a TcpSend request (CMD_TCP_SEND = 0x21) carrying `data`.
    pub fn send_frame(&mut self, data: &[u8]) -> (frame: Vec<u8>)
        ensures
            final(self).seq_no == next_seq_no(old(self).seq_no),
            final(self).session_id == old(self).session_id,
            frame@ == (BjnpHeader {
                device_type: DeviceType::Scan,
                is_response: false,
                command: CommandCode::TcpSend,
                seq_no: old(self).seq_no,
                session_id: old(self).session_id,
                payload_len: data@.len() as u32,
            }).spec_bytes() + data@,
    {
        let mut header = BjnpHeader::new(DeviceType::Scan, CommandCode::TcpSend);
        header.seq_no = self.next_seq();
        header.session_id = self.session_id;
        header.payload_len = data.len() as u32;
        let bytes = header.to_bytes();
        let mut frame = Vec::new();
        push_bytes(&mut frame, bytes.as_slice());
        push_bytes(&mut frame, data);
        frame
    }

    /// The bytes of a TcpRead request (CMD_TCP_READ = 0x20) for at most `max_len` bytes.
    pub fn read_frame(&mut self, max_len: u32) -> (frame: Vec<u8>)
        ensures
            final(self).seq_no == next_seq_no(old(self).seq_no),
            final(self).session_id == old(self).session_id,
            frame@ == (BjnpHeader {
                device_type: DeviceType::Scan,
                is_response: false,
                command: CommandCode::TcpRead,
                seq_no: old(self).seq_no,
                session_id: old(self).session_id,
                payload_len: 4,
            }).spec_bytes() + be32(max_len),
    {
        let mut header = BjnpHeader::new(DeviceType::Scan, CommandCode::TcpRead);
        header.seq_no = self.next_seq();
        header.session_id = self.session_id;
        header.payload_len = 4;
        let bytes = header.to_bytes();
        let len = u32_to_be(max_len);
        let mut frame = Vec::new();
        push_bytes(&mut frame, bytes.as_slice());
        push_bytes(&mut frame, len.as_slice());
        frame
    }
}

} // verus!
