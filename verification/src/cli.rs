//! The decisions of the command-line tools: reading their options and
//! naming what they send.
use vstd::prelude::*;
use vstd::string::*;

use crate::filename::{extension, has_extension};
use crate::scanner::commands::ColorMode;
use crate::scanner::image::{format_of_path, OutputFormat};
use crate::text::{append_hex2, hex2, text_eq};

verus! {

/// The color mode an option names: grayscale for `grayscale` and `gray`,
/// color otherwise.
pub fn parse_color_mode(color: &str) -> (m: ColorMode)
    ensures
        (color@ == "grayscale"@ || color@ == "gray"@) ==> m == ColorMode::Grayscale,
        !(color@ == "grayscale"@ || color@ == "gray"@) ==> m == ColorMode::Color,
{
    if text_eq(color, "grayscale") || text_eq(color, "gray") {
        ColorMode::Grayscale
    } else {
        ColorMode::Color
    }
}

/// The output format of a scan: the one the option names (`jpeg`, `jpg`,
/// `png`), or, without the option, the one the output path's extension names.
pub fn choose_output_format(format: Option<&str>, output: &str) -> (r: Result<OutputFormat, String>)
    ensures
        match format {
            None => r == Ok::<OutputFormat, String>(format_of_path(output@)),
            Some(f) => if f@ == "jpeg"@ || f@ == "jpg"@ {
                r == Ok::<OutputFormat, String>(OutputFormat::Jpeg)
            } else if f@ == "png"@ {
                r == Ok::<OutputFormat, String>(OutputFormat::Png)
            } else {
                r matches Err(m) && m@ == "Unsupported format: "@ + f@
            },
        },
{
    match format {
        None => Ok(OutputFormat::from_extension(output)),
        Some(f) => {
            if text_eq(f, "jpeg") || text_eq(f, "jpg") {
                Ok(OutputFormat::Jpeg)
            } else if text_eq(f, "png") {
                Ok(OutputFormat::Png)
            } else {
                let mut m = String::from_str("Unsupported format: ");
                m.append(f);
                Err(m)
            }
        },
    }
}

/// The document format of a file to print, by its extension.
pub open spec fn print_mime_text(path: Seq<char>) -> Seq<char> {
    if extension(path) == Some("jpg"@) || extension(path) == Some("jpeg"@) {
        "image/jpeg"@
    } else if extension(path) == Some("png"@) {
        "image/png"@
    } else if extension(path) == Some("pdf"@) {
        "application/pdf"@
    } else {
        "application/octet-stream"@
    }
}

/// The document format of a file to print, by its extension.
pub fn print_mime_type(path: &str) -> (mime: &'static str)
    ensures
        mime@ == print_mime_text(path@),
{
    if has_extension(path, "jpg") || has_extension(path, "jpeg") {
        "image/jpeg"
    } else if has_extension(path, "png") {
        "image/png"
    } else if has_extension(path, "pdf") {
        "application/pdf"
    } else {
        "application/octet-stream"
    }
}

/// The document format follows the extension: `jpg` and `jpeg` are JPEG
/// images, `png` PNG images, `pdf` PDF documents, anything else (or none)
/// raw bytes.
pub proof fn lemma_print_mime_by_extension(path: Seq<char>)
    ensures
        extension(path) == Some("jpg"@) ==> print_mime_text(path) == "image/jpeg"@,
        extension(path) == Some("jpeg"@) ==> print_mime_text(path) == "image/jpeg"@,
        extension(path) == Some("png"@) ==> print_mime_text(path) == "image/png"@,
        extension(path) == Some("pdf"@) ==> print_mime_text(path) == "application/pdf"@,
        extension(path) != Some("jpg"@) && extension(path) != Some("jpeg"@) && extension(path)
            != Some("png"@) && extension(path) != Some("pdf"@) ==> print_mime_text(path)
            == "application/octet-stream"@,
{
    reveal_strlit("jpg");
    reveal_strlit("jpeg");
    reveal_strlit("png");
    reveal_strlit("pdf");
    assert("jpg"@.len() != "jpeg"@.len());
    assert("png"@ != "jpg"@) by {
        assert("png"@[0] != "jpg"@[0]);
    }
    assert("pdf"@ != "jpg"@) by {
        assert("pdf"@[0] != "jpg"@[0]);
    }
    assert("png"@.len() != "jpeg"@.len());
    assert("pdf"@.len() != "jpeg"@.len());
    assert("pdf"@ != "png"@) by {
        assert("pdf"@[1] != "png"@[1]);
    }
}

/// The IPP URI of the printer at `host`.
pub fn ipp_print_uri(host: &str) -> (uri: String)
    ensures
        uri@ == "ipp://"@ + host@ + ":631/ipp/print"@,
{
    let mut uri = String::from_str("ipp://");
    uri.append(host);
    uri.append(":631/ipp/print");
    uri
}

/// A MAC address as six colon-separated pairs of lower-case hex digits.
pub open spec fn mac_text(mac: Seq<u8>) -> Seq<char> {
    hex2(mac[0]) + ":"@ + hex2(mac[1]) + ":"@ + hex2(mac[2]) + ":"@ + hex2(mac[3]) + ":"@ + hex2(
        mac[4],
    ) + ":"@ + hex2(mac[5])
}

/// A MAC address as six colon-separated pairs of lower-case hex digits.
pub fn format_mac(mac: &[u8; 6]) -> (s: String)
    ensures
        s@ == mac_text(mac@),
{
    let mut s = String::new();
    append_hex2(&mut s, mac[0]);
    s.append(":");
    append_hex2(&mut s, mac[1]);
    s.append(":");
    append_hex2(&mut s, mac[2]);
    s.append(":");
    append_hex2(&mut s, mac[3]);
    s.append(":");
    append_hex2(&mut s, mac[4]);
    s.append(":");
    append_hex2(&mut s, mac[5]);
    s
}

} // verus!
