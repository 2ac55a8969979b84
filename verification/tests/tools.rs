use pixma::cli::{choose_output_format, format_mac, ipp_print_uri, parse_color_mode, print_mime_type};
use pixma::discover::{
    advertises_scan, is_canon_service, printer_from_record, printer_model, printers_from_records,
    sort_and_dedup, Printer, ServiceRecord,
};
use pixma::filename::file_name_or_path;
use pixma::scanner::commands::ColorMode;
use pixma::scanner::image::OutputFormat;

#[test]
fn options() {
    assert_eq!(parse_color_mode("gray"), ColorMode::Grayscale);
    assert_eq!(parse_color_mode("grayscale"), ColorMode::Grayscale);
    assert_eq!(parse_color_mode("Gray"), ColorMode::Color);
    assert_eq!(choose_output_format(Some("jpg"), "x.png"), Ok(OutputFormat::Jpeg));
    assert_eq!(choose_output_format(Some("png"), "x.jpg"), Ok(OutputFormat::Png));
    assert_eq!(choose_output_format(None, "x.jpeg"), Ok(OutputFormat::Jpeg));
    assert_eq!(choose_output_format(Some("tiff"), "x"), Err("Unsupported format: tiff".to_string()));
}

#[test]
fn printing_names() {
    assert_eq!(print_mime_type("doc.pdf"), "application/pdf");
    assert_eq!(print_mime_type("a/b/photo.jpeg"), "image/jpeg");
    assert_eq!(print_mime_type("img.png"), "image/png");
    assert_eq!(print_mime_type("notes.txt"), "application/octet-stream");
    assert_eq!(file_name_or_path("dir/sub/doc.pdf"), "doc.pdf");
    assert_eq!(file_name_or_path(".."), "..");
    assert_eq!(ipp_print_uri("192.168.0.9"), "ipp://192.168.0.9:631/ipp/print");
    assert_eq!(format_mac(&[0x00, 0x18, 0x3b, 0x8d, 0x18, 0x12]), "00:18:3b:8d:18:12");
}

#[test]
fn service_records() {
    assert!(is_canon_service("Canon G3010 series._ipp._tcp.local."));
    assert!(!is_canon_service("HP LaserJet._ipp._tcp.local."));
    assert_eq!(printer_model(Some("Canon G3010 series"), Some("G3010 series")), "Canon G3010 series");
    assert_eq!(printer_model(None, Some("G3010 series")), "G3010 series");
    assert_eq!(printer_model(None, None), "Unknown Canon");
    assert!(advertises_scan(Some("T")));
    assert!(!advertises_scan(Some("F")));
    assert!(!advertises_scan(None));
}

fn printer(model: &str, ip: [u8; 4]) -> Printer {
    Printer { model: model.to_string(), ip, mac: None, identity: None, scan_capable: true }
}

#[test]
fn printers_sorted_by_address_text_once_each() {
    let input = vec![
        printer("a", [192, 168, 0, 9]),
        printer("b", [192, 168, 0, 10]),
        printer("c", [192, 168, 0, 9]),
        printer("d", [10, 0, 0, 1]),
    ];
    let out = sort_and_dedup(input.clone());
    let models: Vec<&str> = out.iter().map(|p| p.model.as_str()).collect();
    // Text order: "10.0.0.1" < "192.168.0.10" < "192.168.0.9"
    assert_eq!(models, vec!["d", "b", "a"]);

    let mut by_std = input;
    let text = |p: &Printer| format!("{}.{}.{}.{}", p.ip[0], p.ip[1], p.ip[2], p.ip[3]);
    by_std.sort_by_key(|p| text(p));
    by_std.dedup_by_key(|p| text(p));
    let std_models: Vec<&str> = by_std.iter().map(|p| p.model.as_str()).collect();
    assert_eq!(models, std_models);
}

#[test]
fn printers_from_service_records() {
    let addrs = [[192, 168, 1, 20], [10, 0, 0, 5]];
    let p = printer_from_record(
        "Canon G3010 series._ipp._tcp.local.",
        &addrs,
        None,
        Some("G3010 series"),
        Some("T"),
    )
    .unwrap();
    assert_eq!(p.ip, [192, 168, 1, 20]);
    assert_eq!(p.model, "G3010 series");
    assert!(p.scan_capable);
    assert_eq!((p.mac, p.identity), (None, None));
    // Not a Canon service, or no IPv4 address: no printer.
    assert!(printer_from_record("HP LaserJet._ipp._tcp.local.", &addrs, None, None, None).is_none());
    assert!(printer_from_record("CANON MG3600._ipp._tcp.local.", &[], None, None, None).is_none());
    let q = printer_from_record("CANON MG3600._ipp._tcp.local.", &addrs[1..], None, None, Some("F"))
        .unwrap();
    assert_eq!((q.model.as_str(), q.ip, q.scan_capable), ("Unknown Canon", [10, 0, 0, 5], false));
}

fn record(name: &str, ipv4: &[[u8; 4]], ty: Option<&str>, identity: Option<&str>) -> ServiceRecord {
    ServiceRecord {
        fullname: name.to_string(),
        ipv4: ipv4.to_vec(),
        ty: ty.map(str::to_string),
        usb_mdl: None,
        scan: Some("T".to_string()),
        identity: identity.map(str::to_string),
    }
}

#[test]
fn printers_from_record_stream() {
    let recs = vec![
        record("Canon B._ipp._tcp.local.", &[[192, 168, 1, 9]], Some("B first"), Some("MDL:B")),
        record("HP X._ipp._tcp.local.", &[[10, 0, 0, 1]], Some("HP"), None),
        record("Canon A._ipp._tcp.local.", &[[192, 168, 1, 10]], None, None),
        record("Canon B again._ipp._tcp.local.", &[[192, 168, 1, 9]], Some("B second"), None),
        record("Canon C._ipp._tcp.local.", &[], Some("C"), None),
    ];
    let ps = printers_from_records(&recs);
    // Ordered by address text ("192.168.1.10" < "192.168.1.9"), earliest record per address.
    assert_eq!(ps.len(), 2);
    assert_eq!((ps[0].ip, ps[0].model.as_str()), ([192, 168, 1, 10], "Unknown Canon"));
    assert_eq!((ps[1].ip, ps[1].model.as_str()), ([192, 168, 1, 9], "B first"));
    assert_eq!(ps[1].identity.as_deref(), Some("MDL:B"));
    assert!(ps.iter().all(|p| p.scan_capable && p.mac.is_none()));
    assert!(printers_from_records(&Vec::new()).is_empty());
}
