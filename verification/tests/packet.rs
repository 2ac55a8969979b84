use pixma::bjnp::packet::{BjnpHeader, CommandCode, DeviceType};
use pixma::error::PixmaError;

#[test]
fn roundtrip_discover_header() {
    let header = BjnpHeader {
        device_type: DeviceType::Scan,
        is_response: false,
        command: CommandCode::Discover,
        seq_no: 0,
        session_id: 0,
        payload_len: 0,
    };

    let bytes = header.to_bytes();
    assert_eq!(&bytes[0..4], b"BJNP");
    assert_eq!(bytes[4], 0x02); // Scan, not response
    assert_eq!(bytes[5], 0x01); // Discover
    assert_eq!(bytes.len(), 16);

    let parsed = BjnpHeader::from_bytes(&bytes).unwrap();
    assert_eq!(parsed, header);
}

#[test]
fn parse_scan_response() {
    let mut bytes = [0u8; 16];
    bytes[0..4].copy_from_slice(b"BJNP");
    bytes[4] = 0x82; // Scan response (0x02 | 0x80)
    bytes[5] = 0x01; // Discover
    bytes[12..16].copy_from_slice(&42u32.to_be_bytes());

    let header = BjnpHeader::from_bytes(&bytes).unwrap();
    assert!(header.is_response);
    assert_eq!(header.device_type, DeviceType::Scan);
    assert_eq!(header.payload_len, 42);
}

#[test]
fn reject_bad_magic() {
    let bytes = [0u8; 16];
    let err = BjnpHeader::from_bytes(&bytes).unwrap_err();
    assert!(matches!(err, PixmaError::InvalidPacket(_)));
}

#[test]
fn reject_short_buffer() {
    let bytes = [0u8; 8];
    let err = BjnpHeader::from_bytes(&bytes).unwrap_err();
    assert!(matches!(err, PixmaError::InvalidPacket(_)));
}

#[test]
fn header_with_session_and_seq() {
    let header = BjnpHeader {
        device_type: DeviceType::Scan,
        is_response: false,
        command: CommandCode::TcpSend,
        seq_no: 42,
        session_id: 7,
        payload_len: 1024,
    };

    let bytes = header.to_bytes();
    let parsed = BjnpHeader::from_bytes(&bytes).unwrap();
    assert_eq!(parsed.seq_no, 42);
    assert_eq!(parsed.session_id, 7);
    assert_eq!(parsed.payload_len, 1024);
}

fn message(err: PixmaError) -> String {
    match err {
        PixmaError::InvalidPacket(m) => m,
        other => panic!("unexpected error {other:?}"),
    }
}

#[test]
fn header_error_messages() {
    assert_eq!(message(BjnpHeader::from_bytes(&[0u8; 8]).unwrap_err()), "header too short: 8 bytes");
    let mut bytes = [0u8; 16];
    bytes[0..4].copy_from_slice(&[0x42, 0x4a, 0x00, 0xff]);
    assert_eq!(message(BjnpHeader::from_bytes(&bytes).unwrap_err()), "bad magic: [42, 4a, 00, ff]");
    bytes[0..4].copy_from_slice(b"BJNP");
    bytes[4] = 0x85;
    assert_eq!(message(BjnpHeader::from_bytes(&bytes).unwrap_err()), "unknown device type: 0x05");
    bytes[4] = 0x01;
    bytes[5] = 0x7e;
    assert_eq!(message(BjnpHeader::from_bytes(&bytes).unwrap_err()), "unknown command: 0x7e");
}

#[test]
fn header_encoding_is_big_endian() {
    let header = BjnpHeader {
        device_type: DeviceType::Print,
        is_response: true,
        command: CommandCode::GetId,
        seq_no: 0x1234,
        session_id: 0xabcd,
        payload_len: 0x0102_0304,
    };
    assert_eq!(
        header.to_bytes(),
        [0x42, 0x4a, 0x4e, 0x50, 0x81, 0x30, 0, 0, 0x12, 0x34, 0xab, 0xcd, 1, 2, 3, 4]
    );
}

#[test]
fn every_header_roundtrips() {
    let devices = [DeviceType::Print, DeviceType::Scan];
    let commands = [
        CommandCode::Discover,
        CommandCode::JobDetails,
        CommandCode::Close,
        CommandCode::TcpRead,
        CommandCode::TcpSend,
        CommandCode::GetId,
    ];
    for d in devices {
        for c in commands {
            for r in [false, true] {
                let h = BjnpHeader {
                    device_type: d,
                    is_response: r,
                    command: c,
                    seq_no: 0xffff,
                    session_id: 1,
                    payload_len: u32::MAX,
                };
                assert_eq!(BjnpHeader::from_bytes(&h.to_bytes()).unwrap(), h);
            }
        }
    }
}

#[test]
fn reserved_bytes_are_ignored_and_cleared() {
    let mut bytes = [0u8; 20];
    bytes[0..4].copy_from_slice(b"BJNP");
    bytes[4] = 0x02;
    bytes[5] = 0x20;
    bytes[6] = 0x99;
    bytes[7] = 0x77;
    bytes[9] = 5;
    let h = BjnpHeader::from_bytes(&bytes).unwrap();
    let mut expected = [0u8; 16];
    expected.copy_from_slice(&bytes[0..16]);
    expected[6] = 0;
    expected[7] = 0;
    assert_eq!(h.to_bytes(), expected);
}
