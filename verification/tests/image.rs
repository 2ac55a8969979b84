use pixma::error::PixmaError;
use pixma::scanner::image::{decode_failure, save_plan, scan_file_bytes, OutputFormat, SavePlan};
use pixma::scanner::session::ScanResult;

const PNG_SIGNATURE: [u8; 8] = [0x89, b'P', b'N', b'G', 0x0d, 0x0a, 0x1a, 0x0a];

/// A 1x1 white picture encoded in `format`.
fn white_pixel(format: image::ImageFormat) -> Vec<u8> {
    let img = image::RgbImage::from_pixel(1, 1, image::Rgb([255, 255, 255]));
    let mut out = std::io::Cursor::new(Vec::new());
    image::DynamicImage::ImageRgb8(img).write_to(&mut out, format).unwrap();
    out.into_inner()
}

fn scan_of(data: Vec<u8>, is_jpeg: bool) -> ScanResult {
    ScanResult { data, is_jpeg, width: 1, height: 1, channels: 3 }
}

fn failure_text(r: Result<Vec<u8>, PixmaError>) -> String {
    match r {
        Err(PixmaError::ScanFailed(m)) => m,
        other => panic!("expected ScanFailed, got {other:?}"),
    }
}

#[test]
fn format_from_extension() {
    assert!(matches!(OutputFormat::from_extension("scan.png"), OutputFormat::Png));
    assert!(matches!(OutputFormat::from_extension("scan.jpg"), OutputFormat::Jpeg));
    assert!(matches!(OutputFormat::from_extension("scan.jpeg"), OutputFormat::Jpeg));
    assert!(matches!(OutputFormat::from_extension("scan"), OutputFormat::Png));
}

#[test]
fn format_follows_std_path_rules() {
    let cases = [
        "dir/scan.jpg", "scan.JPG", ".jpg", "a/.jpg", "scan.jpg/", "scan.jpg/.", "x/..", "..",
        "/", "", "dir.jpg/scan", "a.b.jpeg", "scan.", "./scan.jpeg", "a//b.jpg",
    ];
    for c in cases {
        let expected = match std::path::Path::new(c).extension().and_then(|e| e.to_str()) {
            Some("jpg" | "jpeg") => OutputFormat::Jpeg,
            _ => OutputFormat::Png,
        };
        assert_eq!(OutputFormat::from_extension(c), expected, "path {c:?}");
    }
}

#[test]
fn save_plans() {
    assert_eq!(save_plan(true, OutputFormat::Jpeg), SavePlan::WriteJpegAsIs);
    assert_eq!(save_plan(true, OutputFormat::Png), SavePlan::DecodeJpegSaveByPath);
    assert_eq!(save_plan(false, OutputFormat::Png), SavePlan::DecodeSaveByPath);
    assert_eq!(save_plan(false, OutputFormat::Jpeg), SavePlan::DecodeSaveAsJpeg);
}

#[test]
fn save_jpeg_data() {
    let jpeg_data = white_pixel(image::ImageFormat::Jpeg);
    let result = scan_of(jpeg_data.clone(), true);
    let bytes = scan_file_bytes(&result, OutputFormat::Jpeg, "pixma_test_jpeg.jpg").unwrap();
    assert_eq!(bytes, jpeg_data);
}

#[test]
fn save_jpeg_as_png() {
    let jpeg_data = white_pixel(image::ImageFormat::Jpeg);
    let result = scan_of(jpeg_data.clone(), true);
    let bytes =
        scan_file_bytes(&result, OutputFormat::Png, "pixma_test_jpeg_to_png.png").unwrap();
    assert_ne!(bytes, jpeg_data);
    assert_eq!(bytes[..8], PNG_SIGNATURE);
    let back = image::load_from_memory(&bytes).unwrap();
    assert_eq!((back.width(), back.height()), (1, 1));
}

#[test]
fn raw_scan_saved_as_jpeg_is_encoded_in_jpeg() {
    let png_data = white_pixel(image::ImageFormat::Png);
    let result = scan_of(png_data, false);
    // The path's extension does not matter: JPEG is asked for.
    let bytes = scan_file_bytes(&result, OutputFormat::Jpeg, "out.png").unwrap();
    assert_eq!(bytes[..2], [0xff, 0xd8]);
}

#[test]
fn raw_scan_saved_by_path() {
    let png_data = white_pixel(image::ImageFormat::Png);
    let result = scan_of(png_data, false);
    let bytes = scan_file_bytes(&result, OutputFormat::Png, "out.png").unwrap();
    assert_eq!(bytes[..8], PNG_SIGNATURE);
}

#[test]
fn undecodable_jpeg_scan_is_reported() {
    let result = scan_of(vec![1, 2, 3, 4], true);
    let m = failure_text(scan_file_bytes(&result, OutputFormat::Png, "out.png"));
    let reason = image::load_from_memory(&[1, 2, 3, 4]).unwrap_err().to_string();
    assert_eq!(m, format!("JPEG decode failed: {reason}"));
}

#[test]
fn undecodable_raw_scan_is_reported() {
    let result = scan_of(vec![1, 2, 3, 4], false);
    let m = failure_text(scan_file_bytes(&result, OutputFormat::Jpeg, "out.jpg"));
    let reason = image::load_from_memory(&[1, 2, 3, 4]).unwrap_err().to_string();
    assert_eq!(m, format!("image decode failed: {reason}"));
}

#[test]
fn jpeg_scan_as_jpeg_is_not_decoded() {
    // Not a picture at all, yet written as it is.
    let result = scan_of(vec![1, 2, 3, 4], true);
    let bytes = scan_file_bytes(&result, OutputFormat::Jpeg, "out.jpg").unwrap();
    assert_eq!(bytes, vec![1, 2, 3, 4]);
}

#[test]
fn path_without_format_is_reported() {
    let result = scan_of(white_pixel(image::ImageFormat::Jpeg), true);
    let m = failure_text(scan_file_bytes(&result, OutputFormat::Png, "scan"));
    let expected = image::ImageFormat::from_path("scan").unwrap_err().to_string();
    assert_eq!(m, expected);
}

#[test]
fn decode_failure_texts() {
    assert!(matches!(decode_failure(true, "bad"),
        PixmaError::ScanFailed(m) if m == "JPEG decode failed: bad"));
    assert!(matches!(decode_failure(false, "bad"),
        PixmaError::ScanFailed(m) if m == "image decode failed: bad"));
}
