use pixma::bridge::translate::{parse_scan_settings, EsclScanSettings};
use pixma::scanner::commands::ColorMode;

const SAMPLE_REQUEST: &str = r#"<?xml version="1.0" encoding="UTF-8"?>
<scan:ScanSettings xmlns:pwg="http://www.pwg.org/schemas/2010/12/sm"
                   xmlns:scan="http://schemas.hp.com/imaging/escl/2011/05/03">
    <pwg:Version>2.0</pwg:Version>
    <pwg:ScanRegions>
        <pwg:ScanRegion>
            <pwg:ContentRegionUnits>escl:ThreeHundredthsOfInches</pwg:ContentRegionUnits>
            <pwg:XOffset>0</pwg:XOffset>
            <pwg:YOffset>0</pwg:YOffset>
            <pwg:Width>2550</pwg:Width>
            <pwg:Height>3300</pwg:Height>
        </pwg:ScanRegion>
    </pwg:ScanRegions>
    <pwg:InputSource>Platen</pwg:InputSource>
    <scan:ColorMode>RGB24</scan:ColorMode>
    <scan:XResolution>300</scan:XResolution>
    <scan:YResolution>300</scan:YResolution>
    <pwg:DocumentFormat>image/jpeg</pwg:DocumentFormat>
</scan:ScanSettings>"#;

#[test]
fn parse_300dpi_color() {
    let settings = parse_scan_settings(SAMPLE_REQUEST.as_bytes());
    assert_eq!(settings.x_resolution, 300);
    assert_eq!(settings.color_mode, ColorMode::Color);
    assert_eq!(settings.width, 2550);
    assert_eq!(settings.height, 3300);
}

#[test]
fn parse_grayscale() {
    let xml = SAMPLE_REQUEST.replace("RGB24", "Grayscale8");
    let settings = parse_scan_settings(xml.as_bytes());
    assert_eq!(settings.color_mode, ColorMode::Grayscale);
}

#[test]
fn to_scan_params_300dpi() {
    let settings = EsclScanSettings {
        x_resolution: 300,
        y_resolution: 300,
        color_mode: ColorMode::Color,
        x_offset: 0,
        y_offset: 0,
        width: 2550,
        height: 3300,
    };
    let params = settings.to_scan_params();
    assert_eq!(params.dpi, 300);
    assert_eq!(params.width, 2550);
    assert_eq!(params.height, 3300);
}

#[test]
fn to_scan_params_600dpi_scales() {
    let settings = EsclScanSettings {
        x_resolution: 600,
        y_resolution: 600,
        color_mode: ColorMode::Color,
        x_offset: 0,
        y_offset: 0,
        width: 2550,
        height: 3300,
    };
    let params = settings.to_scan_params();
    assert_eq!(params.dpi, 600);
    assert_eq!(params.width, 5100); // 2550 * 2
    assert_eq!(params.height, 6600); // 3300 * 2
}

#[test]
fn defaults_on_empty_xml() {
    let settings = parse_scan_settings(b"<scan:ScanSettings/>");
    assert_eq!(settings.x_resolution, 300);
    assert_eq!(settings.color_mode, ColorMode::Color);
}

#[test]
fn default_settings_values() {
    let s = EsclScanSettings::default();
    assert_eq!((s.x_resolution, s.y_resolution), (300, 300));
    assert_eq!((s.x_offset, s.y_offset, s.width, s.height), (0, 0, 2550, 3508));
    assert_eq!(s.color_mode, ColorMode::Color);
}

#[test]
fn bad_numbers_keep_defaults_and_plus_sign_parses() {
    let xml = b"<s><XResolution>abc</XResolution><Width>+1200</Width><Height>99999999999</Height><YOffset>7</YOffset></s>";
    let s = parse_scan_settings(xml);
    assert_eq!(s.x_resolution, 300);
    assert_eq!(s.width, 1200);
    assert_eq!(s.height, 3508);
    assert_eq!(s.y_offset, 7);
}

#[test]
fn offsets_and_low_resolution_scale() {
    let settings = EsclScanSettings {
        x_resolution: 150,
        y_resolution: 150,
        color_mode: ColorMode::Grayscale,
        x_offset: 301,
        y_offset: 10,
        width: 2550,
        height: 3301,
    };
    let p = settings.to_scan_params();
    assert_eq!((p.x, p.y, p.width, p.height), (150, 5, 1275, 1650));
    assert_eq!(p.color, ColorMode::Grayscale);
}

#[test]
fn scaling_saturates() {
    let settings = EsclScanSettings {
        x_resolution: 600,
        y_resolution: 600,
        color_mode: ColorMode::Color,
        x_offset: 0,
        y_offset: 0,
        width: u32::MAX,
        height: 1,
    };
    let p = settings.to_scan_params();
    assert_eq!(p.width, u32::MAX);
    assert_eq!(p.height, 2);
}

#[test]
fn scaling_matches_float_formula_at_escl_resolutions() {
    for dpi in [75u16, 150, 300, 600, 1200] {
        for v in [0u32, 1, 2, 3, 299, 300, 2550, 3300, 3508, 1_000_001] {
            let settings = EsclScanSettings {
                x_resolution: dpi,
                y_resolution: dpi,
                color_mode: ColorMode::Color,
                x_offset: v,
                y_offset: v,
                width: v,
                height: v,
            };
            let scale = dpi as f64 / 300.0;
            assert_eq!(settings.to_scan_params().width, (v as f64 * scale) as u32);
        }
    }
}

#[test]
fn last_color_mode_decides_and_match_is_exact() {
    let doc = |inner: &str| format!("<scan:ScanSettings xmlns:scan=\"x\">{inner}</scan:ScanSettings>");
    let color = |inner: &str| parse_scan_settings(doc(inner).as_bytes()).color_mode;
    assert_eq!(color("<scan:ColorMode>grayscale8</scan:ColorMode>"), ColorMode::Color);
    assert_eq!(color("<scan:ColorMode>RGB24</scan:ColorMode>"), ColorMode::Color);
    assert_eq!(color("<scan:ColorMode>BlackAndWhite1</scan:ColorMode>"), ColorMode::Color);
    assert_eq!(color("<ColorMode>Grayscale8</ColorMode>"), ColorMode::Grayscale);
    assert_eq!(
        color("<scan:ColorMode>Grayscale8</scan:ColorMode><scan:ColorMode>RGB24</scan:ColorMode>"),
        ColorMode::Color
    );
    assert_eq!(color("<scan:XResolution>600</scan:XResolution>"), ColorMode::Color);
}

#[test]
fn unparsed_numbers_keep_defaults_others_set() {
    let s = parse_scan_settings(
        b"<ScanSettings><XResolution>70000</XResolution><YResolution>600</YResolution>\
          <Width>-5</Width><Height>1.5</Height><XOffset>abc</XOffset><YOffset>12</YOffset>\
          </ScanSettings>",
    );
    assert_eq!((s.x_resolution, s.y_resolution), (300, 600));
    assert_eq!((s.width, s.height, s.x_offset, s.y_offset), (2550, 3508, 0, 12));
    // The last number of an element wins; a later bad one leaves it.
    let t = parse_scan_settings(b"<a><Width>100</Width><Width>200</Width><Width>x</Width></a>");
    assert_eq!(t.width, 200);
}

#[test]
fn scaling_is_exact_at_other_resolutions() {
    let settings = EsclScanSettings {
        x_resolution: 87,
        y_resolution: 87,
        color_mode: ColorMode::Color,
        x_offset: 0,
        y_offset: 0,
        width: 100,
        height: 300,
    };
    let p = settings.to_scan_params();
    assert_eq!((p.width, p.height), (29, 87));
}
