use pixma::error::PixmaError;
use pixma::scanner::commands::{
    cmd_abort_session, cmd_capability_query, cmd_gamma_linear, cmd_get_scan_dimensions,
    cmd_read_image, cmd_scan_param_3, cmd_scan_start_3, cmd_select_source_flatbed,
    cmd_start_session, cmd_status_3, parse_image_block, parse_response_status, ColorMode,
    PixmaStatus, ScanParams,
};

#[test]
fn command_checksum() {
    let cmd = cmd_select_source_flatbed();
    let param_len = u16::from_be_bytes([cmd[14], cmd[15]]) as usize;
    if param_len > 0 {
        let params = &cmd[16..16 + param_len];
        let sum: u8 = params.iter().fold(0u8, |acc, &b| acc.wrapping_add(b));
        assert_eq!(sum, 0, "checksum should make param bytes sum to 0");
    }
}

#[test]
fn scan_param_3_encodes_dpi_with_flag() {
    let params = ScanParams::a4(300, ColorMode::Color);
    let cmd = cmd_scan_param_3(&params);
    let xdpi = u16::from_be_bytes([cmd[24], cmd[25]]);
    assert_eq!(xdpi, 300 | 0x8000);
}

#[test]
fn scan_param_3_color_mode() {
    let color = cmd_scan_param_3(&ScanParams::a4(300, ColorMode::Color));
    assert_eq!(color[16 + 0x1C], 0x08);
    assert_eq!(color[16 + 0x1D], 24);

    let gray = cmd_scan_param_3(&ScanParams::a4(300, ColorMode::Grayscale));
    assert_eq!(gray[16 + 0x1C], 0x04);
    assert_eq!(gray[16 + 0x1D], 8);
}

#[test]
fn a4_width_aligned_to_32() {
    let params = ScanParams::a4(300, ColorMode::Color);
    assert_eq!(params.width % 32, 0);
}

#[test]
fn parse_ok_status() {
    let data = [0x06, 0x06, 0, 0, 0, 0, 0, 0];
    assert_eq!(parse_response_status(&data).unwrap(), PixmaStatus::Success);
}

#[test]
fn parse_busy_status() {
    let data = [0x14, 0x14, 0, 0, 0, 0, 0, 0];
    assert_eq!(parse_response_status(&data).unwrap(), PixmaStatus::Busy);
}

#[test]
fn parse_image_block_end() {
    let mut response = vec![0u8; 20];
    response[0] = 0x06;
    response[1] = 0x06;
    response[8] = 0x28;
    response[12..16].copy_from_slice(&4u32.to_be_bytes());
    response[16..20].copy_from_slice(&[0xAA, 0xBB, 0xCC, 0xDD]);

    let block = parse_image_block(&response).unwrap();
    assert!(block.end_of_scan);
    assert_eq!(block.data, vec![0xAA, 0xBB, 0xCC, 0xDD]);
}

#[test]
fn parse_image_block_end_bit_0x20() {
    let mut response = vec![0u8; 20];
    response[0] = 0x06;
    response[1] = 0x06;
    response[8] = 0x20; // only bit 0x20 set
    response[12..16].copy_from_slice(&4u32.to_be_bytes());
    response[16..20].copy_from_slice(&[0x11, 0x22, 0x33, 0x44]);

    let block = parse_image_block(&response).unwrap();
    assert!(block.end_of_scan);
}

#[test]
fn parse_image_block_not_end() {
    let mut response = vec![0u8; 20];
    response[0] = 0x06;
    response[1] = 0x06;
    response[8] = 0x08; // bit 0x20 not set
    response[12..16].copy_from_slice(&4u32.to_be_bytes());
    response[16..20].copy_from_slice(&[0x11, 0x22, 0x33, 0x44]);

    let block = parse_image_block(&response).unwrap();
    assert!(!block.end_of_scan);
}

#[test]
fn start_session_format() {
    let cmd = cmd_start_session();
    assert_eq!(cmd.len(), 16);
    assert_eq!(cmd[0], 0xdb);
    assert_eq!(cmd[1], 0x20);
    assert_eq!(cmd[2], 0x00);
    assert_eq!(cmd[3], 0x01);
}

#[test]
fn scan_start_3_format() {
    let cmd = cmd_scan_start_3();
    assert_eq!(cmd.len(), 16);
    assert_eq!(cmd[0], 0xd9);
    assert_eq!(cmd[1], 0x20);
    assert_eq!(cmd[2], 0x00);
    assert_eq!(cmd[3], 0x01);
}

#[test]
fn status_3_format() {
    let cmd = cmd_status_3();
    assert_eq!(cmd.len(), 16);
    assert_eq!(cmd[0], 0xda);
    assert_eq!(cmd[1], 0x20);
    assert_eq!(cmd[14], 0x00);
    assert_eq!(cmd[15], 0x08);
}

#[test]
fn read_image_format() {
    let cmd = cmd_read_image(0x0020);
    assert_eq!(cmd.len(), 16);
    assert_eq!(cmd[0], 0xd4);
    assert_eq!(cmd[1], 0x20);
    assert_eq!(cmd[12], 0x00);
    assert_eq!(cmd[13], 0x20);
    assert_eq!(cmd[14], 0x00);
    assert_eq!(cmd[15], 0x00);
}

#[test]
fn capability_query_format() {
    let cmd = cmd_capability_query();
    assert_eq!(cmd.len(), 16);
    assert_eq!(cmd[0], 0xf3);
    assert_eq!(cmd[1], 0x20);
    assert_eq!(cmd[14], 0x00);
    assert_eq!(cmd[15], 0x10);
}

#[test]
fn get_scan_dimensions_format() {
    let cmd = cmd_get_scan_dimensions();
    assert_eq!(cmd.len(), 16);
    assert_eq!(cmd[0], 0xdc);
    assert_eq!(cmd[1], 0x20);
    assert_eq!(cmd[14], 0x00);
    assert_eq!(cmd[15], 0x08);
}

#[test]
fn gamma_table_linear() {
    let cmd = cmd_gamma_linear();
    let param_len = u16::from_be_bytes([cmd[14], cmd[15]]) as usize;
    assert_eq!(param_len, 4096);
}

#[test]
fn abort_session_format() {
    let cmd = cmd_abort_session();
    assert_eq!(cmd, vec![0xef, 0x20, 0, 0, 0, 0, 0, 0, 0, 0, 0, 0, 0, 0, 0, 0]);
}

#[test]
fn select_source_frame_exact() {
    let cmd = cmd_select_source_flatbed();
    let mut expected = vec![0xdd, 0x20, 0, 0, 0, 0, 0, 0, 0, 0, 0, 0, 0, 0, 0x00, 0x0c];
    expected.extend_from_slice(&[1, 1, 0, 0, 0, 0, 0, 0, 0, 0, 0, 0xfe]);
    assert_eq!(cmd, expected);
}

#[test]
fn gamma_table_entries_and_checksum() {
    let cmd = cmd_gamma_linear();
    assert_eq!(cmd.len(), 16 + 4096);
    assert_eq!(&cmd[0..2], &[0xee, 0x20]);
    for i in 0..4095 {
        assert_eq!(cmd[16 + i], (i >> 4) as u8);
    }
    let sum: u8 = cmd[16..].iter().fold(0u8, |acc, &b| acc.wrapping_add(b));
    assert_eq!(sum, 0);
}

#[test]
fn scan_param_3_matches_documented_capture() {
    // ScanParam3 for a US Letter scan at 300 DPI, color, as in the protocol notes.
    let params = ScanParams { dpi: 300, color: ColorMode::Color, x: 0, y: 0, width: 2550, height: 3300 };
    let cmd = cmd_scan_param_3(&params);
    assert_eq!(cmd.len(), 72);
    assert_eq!(&cmd[0..16], &[0xd8, 0x20, 0, 0, 0, 0, 0, 0, 0, 0, 0, 0, 0, 0, 0, 0x38]);
    let p = &cmd[16..];
    assert_eq!(&p[0..3], &[1, 1, 1]);
    assert_eq!(&p[8..12], &[0x81, 0x2c, 0x81, 0x2c]);
    assert_eq!(&p[0x14..0x18], &[0, 0, 0x09, 0xf6]);
    assert_eq!(&p[0x18..0x1c], &[0, 0, 0x0c, 0xe4]);
    assert_eq!(&p[0x1c..0x22], &[0x08, 0x18, 0, 0x01, 0xff, 0x82]);
    assert_eq!(p[0x30], 1);
    let sum: u8 = p.iter().fold(0u8, |acc, &b| acc.wrapping_add(b));
    assert_eq!(sum, 0);
}

#[test]
fn a4_matches_millimetre_formula_for_every_dpi() {
    for dpi in 0..=u16::MAX {
        let p = ScanParams::a4(dpi, ColorMode::Grayscale);
        let w = (210.0 / 25.4 * dpi as f64) as u32;
        let h = (297.0 / 25.4 * dpi as f64) as u32;
        assert_eq!(p.width, (w + 31) & !31, "width at {dpi} dpi");
        assert_eq!(p.height, h, "height at {dpi} dpi");
    }
    let p = ScanParams::a4(300, ColorMode::Color);
    assert_eq!((p.width, p.height), (2496, 3507));
}

#[test]
fn status_words() {
    assert_eq!(PixmaStatus::from(0x0606), PixmaStatus::Success);
    assert_eq!(PixmaStatus::from(0x1515), PixmaStatus::Failed);
    assert_eq!(PixmaStatus::from(0x1234), PixmaStatus::Unknown(0x1234));
    assert!(matches!(parse_response_status(&[0x06]), Err(PixmaError::InvalidPacket(_))));
}

#[test]
fn image_block_errors_and_truncated_data() {
    assert!(matches!(parse_image_block(&[0u8; 15]), Err(PixmaError::InvalidPacket(_))));
    let mut response = vec![0u8; 18];
    response[0] = 0x06;
    response[1] = 0x06;
    response[12..16].copy_from_slice(&4u32.to_be_bytes());
    let block = parse_image_block(&response).unwrap();
    assert!(block.data.is_empty());
    assert_eq!(block.status, PixmaStatus::Success);
}
