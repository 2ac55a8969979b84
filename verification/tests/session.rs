use pixma::error::PixmaError;
use pixma::scanner::commands::{
    cmd_abort_session, cmd_capability_query, cmd_get_scan_dimensions, cmd_read_image,
    cmd_scan_param_3, cmd_scan_start_3, cmd_start_session, cmd_status_3, ColorMode, ScanParams,
};
use pixma::scanner::session::{
    ScanAction, ScanEvent, ScanPhase, ScanSession, READ_BLOCK_SIZE_64K, XML_END_JOB,
    XML_MODE_SHIFT, XML_MODE_SHIFT_BLANK, XML_START_JOB,
};

fn ok_status() -> Vec<u8> {
    vec![0x06, 0x06, 0, 0, 0, 0, 0, 0]
}

fn status_poll(byte8: u8) -> Vec<u8> {
    let mut r = vec![0x06, 0x06, 0, 0, 0, 0, 0, 0, byte8, 0, 0, 0, 0, 0, 0, 0];
    r.truncate(16);
    r
}

fn block(data: &[u8], last: bool) -> Vec<u8> {
    let mut r = vec![0u8; 16];
    r[0] = 0x06;
    r[1] = 0x06;
    r[8] = if last { 0x20 } else { 0x00 };
    r[12..16].copy_from_slice(&(data.len() as u32).to_be_bytes());
    r.extend_from_slice(data);
    r
}

fn sent(a: &ScanAction) -> Vec<u8> {
    match a {
        ScanAction::Exchange(b) | ScanAction::PollStatus(b) => b.clone(),
        ScanAction::Finished(_) => panic!("finished early"),
        ScanAction::Stopped(e) => panic!("stopped: {e:?}"),
    }
}

#[test]
fn full_scan_follows_documented_sequence() {
    let params = ScanParams::a4(300, ColorMode::Color);
    let (mut s, mut a) = ScanSession::start(&params);
    let expected: Vec<(Vec<u8>, Vec<u8>)> = vec![
        (XML_MODE_SHIFT_BLANK.as_bytes().to_vec(), b"<ivec:response>OK</ivec:response>".to_vec()),
        (cmd_capability_query(), vec![0; 24]),
        (XML_START_JOB.as_bytes().to_vec(), b"OK".to_vec()),
        (XML_MODE_SHIFT.as_bytes().to_vec(), b"xxOKxx".to_vec()),
        (cmd_start_session(), ok_status()),
        (cmd_capability_query(), vec![0; 24]),
        (cmd_scan_param_3(&params), ok_status()),
        (cmd_scan_start_3(), ok_status()),
        (cmd_status_3(), status_poll(0x00)),
        (cmd_status_3(), vec![0x06, 0x06]),
        (cmd_status_3(), status_poll(0x02)),
        (cmd_status_3(), status_poll(0x01)),
        (cmd_status_3(), status_poll(0x03)),
        (cmd_get_scan_dimensions(), vec![0; 8]),
        (cmd_read_image(READ_BLOCK_SIZE_64K), block(&[0xff, 0xd8], false)),
        (cmd_read_image(READ_BLOCK_SIZE_64K), block(&[], false)),
        (cmd_read_image(READ_BLOCK_SIZE_64K), block(&[0xff, 0xe0, 0x01], true)),
        (cmd_abort_session(), ok_status()),
    ];
    for (request, reply) in expected {
        assert_eq!(sent(&a), request, "in phase {:?}", s.phase());
        if s.phase() == ScanPhase::StatusPoll {
            assert!(matches!(a, ScanAction::PollStatus(_)));
        }
        a = s.step(ScanEvent::Response(reply));
    }
    assert_eq!(sent(&a), XML_END_JOB.as_bytes().to_vec());
    match s.step(ScanEvent::ExchangeFailed(PixmaError::Timeout)) {
        ScanAction::Finished(r) => {
            assert_eq!(r.data, vec![0xff, 0xd8, 0xff, 0xe0, 0x01]);
            assert!(r.is_jpeg);
            assert_eq!((r.width, r.height, r.channels), (params.width, params.height, 3));
        }
        _ => panic!("expected a finished scan"),
    }
    assert_eq!(s.phase(), ScanPhase::Complete);
}

#[test]
fn rejected_mode_shift_stops_with_reply_text() {
    let params = ScanParams::a4(150, ColorMode::Grayscale);
    let (mut s, _) = ScanSession::start(&params);
    match s.step(ScanEvent::Response(b"NG".to_vec())) {
        ScanAction::Stopped(PixmaError::Protocol(m)) => assert_eq!(m, "ModeShift (blank) rejected: NG"),
        _ => panic!("expected rejection"),
    }
    assert_eq!(s.phase(), ScanPhase::Failed);
}

fn session_at_start_session() -> ScanSession {
    let params = ScanParams::a4(75, ColorMode::Grayscale);
    let (mut s, _) = ScanSession::start(&params);
    for reply in [b"OK".to_vec(), vec![], b"OK".to_vec(), b"OK".to_vec()] {
        s.step(ScanEvent::Response(reply));
    }
    assert_eq!(s.phase(), ScanPhase::StartSession);
    s
}

#[test]
fn busy_start_session_is_a_protocol_error() {
    let mut s = session_at_start_session();
    match s.step(ScanEvent::Response(vec![0x14, 0x14])) {
        ScanAction::Stopped(PixmaError::Protocol(m)) => assert_eq!(m, "StartSession: Busy"),
        _ => panic!("expected protocol error"),
    }
    let mut s = session_at_start_session();
    match s.step(ScanEvent::Response(vec![0x12, 0x34])) {
        ScanAction::Stopped(PixmaError::Protocol(m)) => assert_eq!(m, "StartSession: Unknown(4660)"),
        _ => panic!("expected protocol error"),
    }
    let mut s = session_at_start_session();
    assert!(matches!(s.step(ScanEvent::Response(vec![0x06])), ScanAction::Stopped(PixmaError::InvalidPacket(_))));
}

fn session_polling() -> ScanSession {
    let mut s = session_at_start_session();
    for reply in [ok_status(), vec![], ok_status(), ok_status()] {
        s.step(ScanEvent::Response(reply));
    }
    assert_eq!(s.phase(), ScanPhase::StatusPoll);
    s
}

#[test]
fn poll_deadline_fails_the_scan() {
    let mut s = session_polling();
    match s.step(ScanEvent::PollDeadlinePassed) {
        ScanAction::Stopped(PixmaError::ScanFailed(m)) => {
            assert_eq!(m, "scanner never reported data-ready; stuck warming up after 120s")
        }
        _ => panic!("expected scan failure"),
    }
}

#[test]
fn failed_read_block_and_exchange_errors() {
    let mut s = session_polling();
    s.step(ScanEvent::Response(status_poll(3)));
    s.step(ScanEvent::Response(vec![]));
    assert_eq!(s.phase(), ScanPhase::ReadImage);
    let mut failed = block(&[1], false);
    failed[0] = 0x15;
    failed[1] = 0x15;
    match s.step(ScanEvent::Response(failed)) {
        ScanAction::Stopped(PixmaError::ScanFailed(m)) => assert_eq!(m, "ReadImage: Failed"),
        _ => panic!("expected scan failure"),
    }
    let mut s = session_polling();
    assert!(matches!(s.step(ScanEvent::ExchangeFailed(PixmaError::Busy)), ScanAction::Stopped(PixmaError::Busy)));
}

#[test]
fn xml_reply_with_invalid_utf8_still_says_ok() {
    let params = ScanParams::a4(300, ColorMode::Color);
    let (mut s, _) = ScanSession::start(&params);
    let a = s.step(ScanEvent::Response(vec![0xff, b'O', b'K', 0xfe]));
    assert_eq!(sent(&a), cmd_capability_query());
    assert_eq!(s.phase(), ScanPhase::CapabilityQuery);
}
