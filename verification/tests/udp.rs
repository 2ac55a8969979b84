use pixma::bjnp::packet::{BjnpHeader, CommandCode, DeviceType};
use pixma::bjnp::tcp::BjnpSession;
use pixma::bjnp::udp::{parse_discover_response, parse_identity_response, parse_model};
use pixma::error::PixmaError;

fn make_discover_response(mac: [u8; 6], ipv4: [u8; 4]) -> Vec<u8> {
    let mut header = BjnpHeader::new(DeviceType::Scan, CommandCode::Discover);
    header.is_response = true;
    header.payload_len = 16;

    let mut buf = Vec::new();
    buf.extend_from_slice(&header.to_bytes());
    buf.extend_from_slice(&[0x00, 0x01, 0x08, 0x00]);
    buf.push(6);
    buf.push(4);
    buf.extend_from_slice(&mac);
    buf.extend_from_slice(&ipv4);
    buf
}

#[test]
fn parse_valid_discover_response() {
    let mac = [0x00, 0x18, 0x3b, 0x8d, 0x18, 0x12];
    let buf = make_discover_response(mac, [192, 168, 0, 9]);
    let device_mac = parse_discover_response(&buf).unwrap();
    assert_eq!(device_mac, mac);
}

#[test]
fn reject_non_response() {
    let header = BjnpHeader::new(DeviceType::Scan, CommandCode::Discover);
    let mut buf = vec![0u8; 32];
    buf[..16].copy_from_slice(&header.to_bytes());

    let err = parse_discover_response(&buf).unwrap_err();
    assert!(matches!(err, PixmaError::InvalidPacket(_)));
}

#[test]
fn parse_model_from_identity() {
    let id = "MFG:Canon;CMD:BJRaster3,NCCe,IVEC;SOJ:CHMP;MDL:G3010 series;";
    assert_eq!(parse_model(id), Some("G3010 series"));
}

#[test]
fn parse_model_missing() {
    let id = "MFG:Canon;CMD:BJRaster3;";
    assert_eq!(parse_model(id), None);
}

#[test]
fn parse_model_edge_cases() {
    assert_eq!(parse_model("MDL:"), Some(""));
    assert_eq!(parse_model("MDL:x"), Some("x"));
    assert_eq!(parse_model("MDL:ä;MDL:b"), Some("ä"));
    assert_eq!(parse_model("xMDL:a;MDL:b;"), Some("b"));
    assert_eq!(parse_model(""), None);
    assert_eq!(parse_model("MDL"), None);
}

#[test]
fn discover_response_layout_errors() {
    let mac = [1, 2, 3, 4, 5, 6];
    let mut buf = make_discover_response(mac, [10, 0, 0, 1]);
    buf[20] = 5;
    match parse_discover_response(&buf) {
        Err(PixmaError::InvalidPacket(m)) => assert_eq!(m, "unexpected mac/addr layout"),
        _ => panic!("expected layout error"),
    }
    let short = make_discover_response(mac, [10, 0, 0, 1])[..31].to_vec();
    match parse_discover_response(&short) {
        Err(PixmaError::InvalidPacket(m)) => assert_eq!(m, "discover payload too short"),
        _ => panic!("expected short error"),
    }
}

fn identity_reply(id: &[u8], declared: u16) -> Vec<u8> {
    let mut h = BjnpHeader::new(DeviceType::Scan, CommandCode::GetId);
    h.is_response = true;
    let mut buf = h.to_bytes().to_vec();
    buf.extend_from_slice(&declared.to_be_bytes());
    buf.extend_from_slice(id);
    buf
}

#[test]
fn identity_response_decoding() {
    let id = b"MFG:Canon;MDL:G3010 series;";
    let s = parse_identity_response(&identity_reply(id, id.len() as u16)).unwrap();
    assert_eq!(s, "MFG:Canon;MDL:G3010 series;");
    match parse_identity_response(&identity_reply(id, 200)) {
        Err(PixmaError::InvalidPacket(m)) => assert_eq!(m, "identity string length exceeds payload"),
        _ => panic!("expected length error"),
    }
    match parse_identity_response(&identity_reply(&[0x41, 0xff], 2)) {
        Err(PixmaError::InvalidPacket(m)) => {
            assert_eq!(m, "identity not UTF-8: invalid utf-8 sequence of 1 bytes from index 1")
        }
        _ => panic!("expected utf-8 error"),
    }
    let mut not_reply = identity_reply(id, id.len() as u16);
    not_reply[4] = 0x02;
    match parse_identity_response(&not_reply) {
        Err(PixmaError::InvalidPacket(m)) => assert_eq!(m, "not a GetId response"),
        _ => panic!("expected kind error"),
    }
}

#[test]
fn tcp_frames_number_requests() {
    let mut s = BjnpSession::new(7);
    let f = s.send_frame(&[9, 8, 7]);
    let h = BjnpHeader::from_bytes(&f).unwrap();
    assert_eq!((h.command, h.seq_no, h.session_id, h.payload_len), (CommandCode::TcpSend, 0, 7, 3));
    assert_eq!(&f[16..], &[9, 8, 7]);
    let r = s.read_frame(0x10000);
    let h = BjnpHeader::from_bytes(&r).unwrap();
    assert_eq!((h.command, h.seq_no, h.payload_len), (CommandCode::TcpRead, 1, 4));
    assert_eq!(&r[16..], &[0, 1, 0, 0]);
    s.seq_no = u16::MAX;
    assert_eq!(s.next_seq(), u16::MAX);
    assert_eq!(s.next_seq(), 0);
}

#[test]
fn parse_model_is_first_mdl_field_of_split() {
    let ids = [
        "MFG:Canon;CMD:BJL;MDL:G3010 series;CLS:PRINTER;",
        "MDL:first;MDL:second",
        "mdl:lower;MDL:upper",
        "MDL:;x",
        ";;MDL:x;",
        "MFG:Canon",
        "",
        "MDL",
        "xMDL:y",
    ];
    for id in ids {
        let expected = id.split(';').find(|f| f.starts_with("MDL:")).map(|f| &f[4..]);
        assert_eq!(parse_model(id), expected, "identity {id:?}");
    }
}
