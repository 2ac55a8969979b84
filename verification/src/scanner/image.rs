//! Output formats of a scan and how a scan is saved in each.
use vstd::prelude::*;

use crate::error::PixmaError;
use crate::filename::{extension, has_extension};
use crate::scanner::session::ScanResult;
use crate::text::string_of;

verus! {

/// File format of a saved scan.
#[derive(Debug, Clone, Copy, PartialEq, Eq, Structural)]
pub enum OutputFormat {
    Png,
    Jpeg,
}

/// The format a path's extension names: JPEG for `jpg` and `jpeg`, PNG otherwise.
pub open spec fn format_of_path(path: Seq<char>) -> OutputFormat {
    if extension(path) == Some("jpg"@) || extension(path) == Some("jpeg"@) {
        OutputFormat::Jpeg
    } else {
        OutputFormat::Png
    }
}

impl OutputFormat {
    /// The format that the extension of `path` names.
    pub fn from_extension(path: &str) -> (f: Self)
        ensures
            f == format_of_path(path@),
    {
        if has_extension(path, "jpg") || has_extension(path, "jpeg") {
            Self::Jpeg
        } else {
            Self::Png
        }
    }
}

/// How scan data is turned into the output file.
#[derive(Debug, Clone, Copy, PartialEq, Eq, Structural)]
pub enum SavePlan {
    /// Write the JPEG bytes as they are.
    WriteJpegAsIs,
    /// Decode the JPEG data and save the image in the format of the path.
    DecodeJpegSaveByPath,
    /// Decode the image data and save it in the format of the path.
    DecodeSaveByPath,
    /// Decode the image data and save it as JPEG.
    DecodeSaveAsJpeg,
}

/// How a scan (JPEG data or not) is saved in `format`.
pub fn save_plan(is_jpeg: bool, format: OutputFormat) -> (p: SavePlan)
    ensures
        is_jpeg && format == OutputFormat::Jpeg ==> p == SavePlan::WriteJpegAsIs,
        is_jpeg && format == OutputFormat::Png ==> p == SavePlan::DecodeJpegSaveByPath,
        !is_jpeg && format == OutputFormat::Png ==> p == SavePlan::DecodeSaveByPath,
        !is_jpeg && format == OutputFormat::Jpeg ==> p == SavePlan::DecodeSaveAsJpeg,
{
    if is_jpeg {
        match format {
            OutputFormat::Jpeg => SavePlan::WriteJpegAsIs,
            OutputFormat::Png => SavePlan::DecodeJpegSaveByPath,
        }
    } else {
        match format {
            OutputFormat::Png => SavePlan::DecodeSaveByPath,
            OutputFormat::Jpeg => SavePlan::DecodeSaveAsJpeg,
        }
    }
}

/// `image::DynamicImage`, the decoded picture held between decoding and encoding.
#[verifier::external_type_specification]
#[verifier::external_body]
pub struct ExDynamicImage(image::DynamicImage);

/// `image::ImageFormat`, the encoding a picture is written in.
#[verifier::external_type_specification]
#[verifier::external_body]
pub struct ExImageFormat(image::ImageFormat);

/// What `image::load_from_memory` makes of `data`: `None` when it decodes,
/// else the text of its error.
pub uninterp spec fn image_decode_error(data: Seq<u8>) -> Option<Seq<char>>;

/// What `image::ImageFormat::from_path` makes of `path`: `None` when the
/// extension names a format, else the text of its error.
pub uninterp spec fn image_path_format_error(path: Seq<char>) -> Option<Seq<char>>;

/// What `DynamicImage::write_to` writes for the picture decoded from `source`:
/// in JPEG for `target == None`, in the format that the path names for
/// `target == Some(path)`; the bytes, or the text of its error.
pub uninterp spec fn image_encoding(source: Seq<u8>, target: Option<Seq<char>>) -> Result<
    Seq<u8>,
    Seq<char>,
>;

/// A picture decoded from the bytes it remembers.
struct DecodedImage {
    image: image::DynamicImage,
    source: Ghost<Seq<u8>>,
}

impl View for DecodedImage {
    type V = Seq<u8>;

    closed spec fn view(&self) -> Seq<u8> {
        self.source@
    }
}

/// An encoding to write a picture in, with what chose it: `None` for JPEG,
/// `Some(path)` for the format that `path` names.
struct TargetFormat {
    format: image::ImageFormat,
    target: Ghost<Option<Seq<char>>>,
}

impl View for TargetFormat {
    type V = Option<Seq<char>>;

    closed spec fn view(&self) -> Option<Seq<char>> {
        self.target@
    }
}

/// `image::load_from_memory`: decodes `data`, guessing its format from its
/// content. Claimed: whether it decodes, and the text of the error when it does
/// not, depend on the bytes alone (`image_decode_error`); the picture keeps
/// `data` as its source.
#[verifier::external_body]
fn decode_image(data: &[u8]) -> (r: Result<DecodedImage, String>)
    ensures
        r is Ok <==> image_decode_error(data@) is None,
        r matches Ok(img) ==> img@ == data@,
        r matches Err(t) ==> image_decode_error(data@) == Some(t@),
{
    match image::load_from_memory(data) {
        Ok(image) => Ok(DecodedImage { image, source: Ghost(data@) }),
        Err(e) => Err(e.to_string()),
    }
}

/// `image::ImageFormat::from_path`: the format that the extension of `path`
/// names (read with the path syntax of the platform built for). Claimed:
/// whether one is named, and the text of the error when none is, depend on the
/// path alone (`image_path_format_error`).
#[verifier::external_body]
fn format_for_path(path: &str) -> (r: Result<TargetFormat, String>)
    ensures
        r is Ok <==> image_path_format_error(path@) is None,
        r matches Ok(f) ==> f@ == Some(path@),
        r matches Err(t) ==> image_path_format_error(path@) == Some(t@),
{
    match image::ImageFormat::from_path(path) {
        Ok(format) => Ok(TargetFormat { format, target: Ghost(Some(path@)) }),
        Err(e) => Err(e.to_string()),
    }
}

/// `image::ImageFormat::Jpeg`, the JPEG encoding.
#[verifier::external_body]
fn jpeg_format() -> (r: TargetFormat)
    ensures
        r@ is None,
{
    TargetFormat { format: image::ImageFormat::Jpeg, target: Ghost(None) }
}

/// `DynamicImage::write_to` into an in-memory buffer: the picture encoded in
/// `format`. Claimed: the bytes, or the text of the error, depend on the
/// picture's source bytes and the chosen format alone (`image_encoding`).
#[verifier::external_body]
fn encode_image(img: &DecodedImage, format: &TargetFormat) -> (r: Result<Vec<u8>, String>)
    ensures
        r matches Ok(b) ==> (image_encoding(img@, format@) matches Ok(e) && e == b@),
        r matches Err(t) ==> (image_encoding(img@, format@) matches Err(m) && m == t@),
{
    let mut out = std::io::Cursor::new(Vec::new());
    match img.image.write_to(&mut out, format.format) {
        Ok(()) => Ok(out.into_inner()),
        Err(e) => Err(e.to_string()),
    }
}

/// The text that a failed decode is reported with.
pub open spec fn decode_failure_text(is_jpeg: bool, reason: Seq<char>) -> Seq<char> {
    if is_jpeg {
        "JPEG decode failed: "@ + reason
    } else {
        "image decode failed: "@ + reason
    }
}

/// The error reported when scan data (JPEG or not) does not decode.
pub fn decode_failure(is_jpeg: bool, reason: &str) -> (e: PixmaError)
    ensures
        e matches PixmaError::ScanFailed(m) && m@ == decode_failure_text(is_jpeg, reason@),
{
    let prefix = if is_jpeg {
        string_of("JPEG decode failed: ")
    } else {
        string_of("image decode failed: ")
    };
    PixmaError::ScanFailed(prefix.concat(reason))
}

/// The encoding a decoded scan is written in: JPEG when a non-JPEG scan is
/// asked for as JPEG, else the format that the path names.
pub open spec fn encode_target(is_jpeg: bool, format: OutputFormat, path: Seq<char>) -> Option<
    Seq<char>,
> {
    if !is_jpeg && format == OutputFormat::Jpeg {
        None
    } else {
        Some(path)
    }
}

/// The bytes of the file that a scan is saved as at `path` in `format`, or the
/// text of the failure: JPEG data asked for as JPEG is written as it is; other
/// data is decoded, then encoded in the format of `path` (in JPEG when non-JPEG
/// data is asked for as JPEG).
pub open spec fn scan_file(data: Seq<u8>, is_jpeg: bool, format: OutputFormat, path: Seq<char>) -> Result<
    Seq<u8>,
    Seq<char>,
> {
    if is_jpeg && format == OutputFormat::Jpeg {
        Ok(data)
    } else if let Some(reason) = image_decode_error(data) {
        Err(decode_failure_text(is_jpeg, reason))
    } else if encode_target(is_jpeg, format, path) is Some && image_path_format_error(
        path,
    ) is Some {
        Err(image_path_format_error(path)->0)
    } else {
        image_encoding(data, encode_target(is_jpeg, format, path))
    }
}

/// The bytes of the file that `result` is saved as at `path` in `format`; a
/// failure to decode or encode is reported as `ScanFailed`.
pub fn scan_file_bytes(result: &ScanResult, format: OutputFormat, path: &str) -> (r: Result<
    Vec<u8>,
    PixmaError,
>)
    ensures
        scan_file(result.data@, result.is_jpeg, format, path@) is Ok <==> r is Ok,
        r matches Ok(b) ==> (scan_file(result.data@, result.is_jpeg, format, path@) matches Ok(d) && d == b@),
        r matches Err(e) ==> (e matches PixmaError::ScanFailed(m) && scan_file(
            result.data@,
            result.is_jpeg,
            format,
            path@,
        ) matches Err(t) && t == m@),
{
    let plan = save_plan(result.is_jpeg, format);
    if plan == SavePlan::WriteJpegAsIs {
        return Ok(result.data.clone());
    }
    let img = match decode_image(result.data.as_slice()) {
        Ok(img) => img,
        Err(reason) => return Err(decode_failure(result.is_jpeg, reason.as_str())),
    };
    let target = if plan == SavePlan::DecodeSaveAsJpeg {
        jpeg_format()
    } else {
        match format_for_path(path) {
            Ok(f) => f,
            Err(t) => return Err(PixmaError::ScanFailed(t)),
        }
    };
    match encode_image(&img, &target) {
        Ok(bytes) => Ok(bytes),
        Err(t) => Err(PixmaError::ScanFailed(t)),
    }
}

} // verus!
