//! The binary pixma command set: command frames sent to the scanner and the
//! decoding of its replies.
use vstd::prelude::*;
use vstd::string::*;

use crate::error::PixmaError;
use crate::wire::{
    be16, be32, from_be16, from_be32, push_bytes, push_zeros, u16_from_be, u16_to_be,
    u32_from_be, u32_to_be, zero_vec, zeros,
};

verus! {

/// Pixma command codes.
#[derive(Debug, Clone, Copy, PartialEq, Eq, Structural)]
pub enum PixmaCmd {
    StartSession,
    SelectSource,
    Gamma,
    ScanParam3,
    ScanStart3,
    Status3,
    ReadImage,
    CapabilityQuery,
    GetScanDimensions,
    AbortSession,
    ErrorInfo,
}

impl PixmaCmd {
    /// The 16-bit wire code of the command.
    pub open spec fn spec_code(self) -> u16 {
        match self {
            PixmaCmd::StartSession => 0xdb20,
            PixmaCmd::SelectSource => 0xdd20,
            PixmaCmd::Gamma => 0xee20,
            PixmaCmd::ScanParam3 => 0xd820,
            PixmaCmd::ScanStart3 => 0xd920,
            PixmaCmd::Status3 => 0xda20,
            PixmaCmd::ReadImage => 0xd420,
            PixmaCmd::CapabilityQuery => 0xf320,
            PixmaCmd::GetScanDimensions => 0xdc20,
            PixmaCmd::AbortSession => 0xef20,
            PixmaCmd::ErrorInfo => 0xff20,
        }
    }

    /// The 16-bit wire code of the command.
    pub fn code(self) -> (c: u16)
        ensures
            c == self.spec_code(),
    {
        match self {
            PixmaCmd::StartSession => 0xdb20,
            PixmaCmd::SelectSource => 0xdd20,
            PixmaCmd::Gamma => 0xee20,
            PixmaCmd::ScanParam3 => 0xd820,
            PixmaCmd::ScanStart3 => 0xd920,
            PixmaCmd::Status3 => 0xda20,
            PixmaCmd::ReadImage => 0xd420,
            PixmaCmd::CapabilityQuery => 0xf320,
            PixmaCmd::GetScanDimensions => 0xdc20,
            PixmaCmd::AbortSession => 0xef20,
            PixmaCmd::ErrorInfo => 0xff20,
        }
    }
}

/// Status word at the start of every binary reply.
#[derive(Debug, Clone, Copy, PartialEq, Eq, Structural)]
pub enum PixmaStatus {
    /// Status word 0x0606.
    Success,
    Busy,
    Failed,
    Unknown(u16),
}

/// The status that a status word stands for.
pub open spec fn status_of(val: u16) -> PixmaStatus {
    if val == 0x0606 {
        PixmaStatus::Success
    } else if val == 0x1414 {
        PixmaStatus::Busy
    } else if val == 0x1515 {
        PixmaStatus::Failed
    } else {
        PixmaStatus::Unknown(val)
    }
}

/// Status words: 0x0606 is success, 0x1414 busy, 0x1515 failure; any other
/// word is unknown and carried as it is.
pub proof fn lemma_status_words(w: u16)
    ensures
        (status_of(w) == PixmaStatus::Success) == (w == 0x0606),
        (status_of(w) == PixmaStatus::Busy) == (w == 0x1414),
        (status_of(w) == PixmaStatus::Failed) == (w == 0x1515),
        w != 0x0606 && w != 0x1414 && w != 0x1515 ==> status_of(w) == PixmaStatus::Unknown(w),
{
}

impl From<u16> for PixmaStatus {
    fn from(val: u16) -> (s: Self) {
        match val {
            0x0606 => Self::Success,
            0x1414 => Self::Busy,
            0x1515 => Self::Failed,
            other => Self::Unknown(other),
        }
    }
}

impl vstd::std_specs::convert::FromSpecImpl<u16> for PixmaStatus {
    open spec fn obeys_from_spec() -> bool {
        true
    }

    open spec fn from_spec(val: u16) -> Self {
        status_of(val)
    }
}

/// The resolution field: the DPI with the high bit set.
pub open spec fn encoded_dpi(dpi: u16) -> u16 {
    dpi | 0x8000
}

fn encode_dpi(dpi: u16) -> (e: u16)
    ensures
        e == encoded_dpi(dpi),
{
    dpi | 0x8000
}

/// A resolution field carries the requested DPI in its low 15 bits with the
/// top bit set: for a DPI below 0x8000 it is the DPI plus 0x8000.
pub proof fn lemma_dpi_field(dpi: u16)
    requires
        dpi < 0x8000,
    ensures
        encoded_dpi(dpi) == dpi + 0x8000,
        encoded_dpi(dpi) & 0x7fff == dpi,
        encoded_dpi(dpi) & 0x8000 != 0,
{
    assert((dpi | 0x8000) == dpi + 0x8000 && (dpi | 0x8000) & 0x7fff == dpi && (dpi | 0x8000)
        & 0x8000 != 0) by (bit_vector)
        requires
            dpi < 0x8000,
    ;
}

/// Color mode of a scan.
#[derive(Debug, Clone, Copy, PartialEq, Eq, Structural)]
pub enum ColorMode {
    Color,
    Grayscale,
}

/// Region and format of a scan, in pixels at the scan resolution.
#[derive(Debug, Clone, Copy)]
pub struct ScanParams {
    pub dpi: u16,
    pub color: ColorMode,
    pub x: u32,
    pub y: u32,
    pub width: u32,
    pub height: u32,
}

/// Width in pixels of an A4 page (210 mm) at `dpi`, rounded up to a multiple of 32.
pub open spec fn a4_width(dpi: u16) -> u32 {
    ((dpi * 2100 / 254 + 31) / 32 * 32) as u32
}

/// Height in pixels of an A4 page (297 mm) at `dpi`.
pub open spec fn a4_height(dpi: u16) -> u32 {
    (dpi * 2970 / 254) as u32
}

/// An A4 page (210 x 297 mm) in pixels: the width is the page width,
/// rounded down to whole pixels and then up to a multiple of 32; the height is
/// the page height rounded down to whole pixels.
pub proof fn lemma_a4_size(dpi: u16)
    ensures
        a4_width(dpi) % 32 == 0,
        a4_width(dpi) * 254 >= dpi * 2100 - 253,
        a4_width(dpi) < (dpi * 2100) / 254 + 32,
        a4_width(dpi) >= (dpi * 2100) / 254,
        a4_height(dpi) * 254 <= dpi * 2970 < (a4_height(dpi) + 1) * 254,
{
    let w = (dpi * 2100) / 254;
    assert(0 <= w < 0x100_0000);
    assert((w + 31) / 32 * 32 <= w + 31) by (nonlinear_arith)
        requires
            w >= 0,
    ;
    assert((w + 31) / 32 * 32 >= w) by (nonlinear_arith)
        requires
            w >= 0,
    ;
    assert(((w + 31) / 32 * 32) % 32 == 0) by (nonlinear_arith)
        requires
            w >= 0,
    ;
    assert(w * 254 >= dpi * 2100 - 253) by (nonlinear_arith)
        requires
            w == (dpi * 2100) / 254,
            dpi >= 0,
    ;
    let h = (dpi * 2970) / 254;
    assert(h * 254 <= dpi * 2970 < (h + 1) * 254) by (nonlinear_arith)
        requires
            h == (dpi * 2970) / 254,
            dpi >= 0,
    ;
    assert(h < 0x1_0000_0000);
}

impl ScanParams {
    /// Full A4 flatbed scan at the given DPI.
    pub fn a4(dpi: u16, color: ColorMode) -> (p: Self)
        ensures
            p.dpi == dpi,
            p.color == color,
            p.x == 0,
            p.y == 0,
            p.width == a4_width(dpi),
            p.height == a4_height(dpi),
            p.width % 32 == 0,
    {
        let w: u32 = dpi as u32 * 2100 / 254;
        let h: u32 = dpi as u32 * 2970 / 254;
        assert(w < 0x100_0000);
        let w1: u32 = w + 31;
        let w2: u32 = w1 & !31u32;
        assert(w1 & !31u32 == w1 / 32 * 32) by (bit_vector);
        Self { dpi, color, x: 0, y: 0, width: w2, height: h }
    }
}

/// Length of the command header.
pub const PIXMA_CMD_HEADER_LEN: usize = 16;

/// Sum of the bytes of a sequence.
pub open spec fn byte_sum(s: Seq<u8>) -> nat
    decreases s.len(),
{
    if s.len() == 0 {
        0
    } else {
        byte_sum(s.drop_last()) + s.last() as nat
    }
}

/// The byte that makes `s` plus itself sum to zero modulo 256.
pub open spec fn checksum_byte(s: Seq<u8>) -> u8 {
    ((256 - byte_sum(s) % 256) % 256) as u8
}

/// The parameter block as sent: the given bytes with the last one replaced by
/// the checksum of the others.
pub open spec fn with_checksum(params: Seq<u8>) -> Seq<u8> {
    if params.len() == 0 {
        params
    } else {
        params.drop_last().push(checksum_byte(params.drop_last()))
    }
}

/// A command frame: code, ten reserved bytes... the 16-byte header, then the
/// checksummed parameter block. The length field counts the checksum.
pub open spec fn command_bytes(code: u16, params: Seq<u8>) -> Seq<u8> {
    be16(code) + zeros(12) + be16(params.len() as u16) + with_checksum(params)
}

/// Build a pixma command. The param block includes a checksum as the
/// last byte; the checksum is counted in the param length.
fn build_command(cmd: PixmaCmd, params: &[u8]) -> (buf: Vec<u8>)
    requires
        params@.len() <= 0xFFFF,
    ensures
        buf@ == command_bytes(cmd.spec_code(), params@),
{
    let param_len = params.len() as u16;
    let code = u16_to_be(cmd.code());
    let plen = u16_to_be(param_len);
    let mut buf: Vec<u8> = Vec::new();
    buf.push(code[0]);
    buf.push(code[1]);
    push_zeros(&mut buf, 12);
    buf.push(plen[0]);
    buf.push(plen[1]);
    let ghost header = buf@;
    assert(header =~= be16(cmd.spec_code()) + zeros(12) + be16(params.len() as u16));
    if params.len() > 0 {
        let n = params.len() - 1;
        let mut sum: u8 = 0;
        let mut j: usize = 0;
        while j < n
            invariant
                n + 1 == params@.len(),
                j <= n,
                buf@ == header + params@.subrange(0, j as int),
                sum as nat == byte_sum(params@.subrange(0, j as int)) % 256,
            decreases n - j,
        {
            let b = params[j];
            buf.push(b);
            assert(params@.subrange(0, j + 1).drop_last() =~= params@.subrange(0, j as int));
            sum = ((sum as u16 + b as u16) % 256) as u8;
            j = j + 1;
            assert(buf@ =~= header + params@.subrange(0, j as int));
        }
        assert(params@.subrange(0, n as int) =~= params@.drop_last());
        let check = ((256 - sum as u16) % 256) as u8;
        buf.push(check);
        assert(buf@ =~= command_bytes(cmd.spec_code(), params@));
    } else {
        assert(buf@ =~= command_bytes(cmd.spec_code(), params@));
    }
    buf
}

/// Appending a byte adds it to the sum.
pub proof fn lemma_byte_sum_push(s: Seq<u8>, b: u8)
    ensures
        byte_sum(s.push(b)) == byte_sum(s) + b,
{
    assert(s.push(b).drop_last() =~= s);
}

/// The parameter block of every command frame sums to zero modulo 256.
pub proof fn lemma_command_checksum(code: u16, params: Seq<u8>)
    requires
        params.len() <= 0xFFFF,
    ensures
        byte_sum(
            command_bytes(code, params).subrange(16, 16 + params.len() as int),
        ) % 256 == 0,
{
    let frame = command_bytes(code, params);
    assert(frame.subrange(16, 16 + params.len() as int) =~= with_checksum(params));
    if params.len() > 0 {
        let s = params.drop_last();
        lemma_byte_sum_push(s, checksum_byte(s));
        let t = byte_sum(s);
        assert((t + (256 - t % 256) % 256) % 256 == 0) by (nonlinear_arith);
    }
}

/// The layout of a command frame with `n` parameter bytes: `16 + n` bytes;
/// the code big-endian; twelve zero bytes; `n` big-endian; the parameters but
/// the last, whose place holds the checksum, so that the block sums to zero
/// modulo 256.
pub proof fn lemma_command_layout(code: u16, params: Seq<u8>)
    requires
        params.len() <= 0xFFFF,
    ensures
        ({
            let r = command_bytes(code, params);
            let n = params.len() as int;
            &&& r.len() == 16 + n
            &&& r.subrange(0, 2) == be16(code)
            &&& r.subrange(2, 14) == zeros(12)
            &&& r.subrange(14, 16) == be16(n as u16)
            &&& n > 0 ==> r.subrange(16, 15 + n) == params.subrange(0, n - 1)
            &&& byte_sum(r.subrange(16, 16 + n)) % 256 == 0
        }),
{
    let r = command_bytes(code, params);
    let n = params.len() as int;
    assert(r.subrange(0, 2) =~= be16(code));
    assert(r.subrange(2, 14) =~= zeros(12));
    assert(r.subrange(14, 16) =~= be16(n as u16));
    if n > 0 {
        assert(r.subrange(16, 15 + n) =~= params.subrange(0, n - 1));
    }
    lemma_command_checksum(code, params);
}

/// The ScanParam3 block tells the scanner the requested resolution: bytes
/// 8..10 (X) and 10..12 (Y) are the DPI plus 0x8000, big-endian.
pub proof fn lemma_scan_param_resolution(p: ScanParams)
    requires
        p.dpi < 0x8000,
    ensures
        scan_param_block(p).subrange(8, 10) == be16((p.dpi + 0x8000) as u16),
        scan_param_block(p).subrange(10, 12) == be16((p.dpi + 0x8000) as u16),
{
    lemma_dpi_field(p.dpi);
    assert(scan_param_block(p).subrange(8, 10) =~= be16((p.dpi + 0x8000) as u16));
    assert(scan_param_block(p).subrange(10, 12) =~= be16((p.dpi + 0x8000) as u16));
}

/// The ScanParam3 block: 56 bytes; flags `01 01 01`; the resolution twice;
/// the region (x, y, width, height) as big-endian 32-bit words at bytes
/// 12..28; then the colour code (0x08 colour, 0x04 grayscale) and bit depth
/// (24 colour, 8 grayscale).
pub proof fn lemma_scan_param_layout(p: ScanParams)
    ensures
        scan_param_block(p).len() == 56,
        scan_param_block(p).subrange(0, 3) == seq![0x01u8, 0x01, 0x01],
        scan_param_block(p).subrange(12, 16) == be32(p.x),
        scan_param_block(p).subrange(16, 20) == be32(p.y),
        scan_param_block(p).subrange(20, 24) == be32(p.width),
        scan_param_block(p).subrange(24, 28) == be32(p.height),
        scan_param_block(p)[28] == (if p.color == ColorMode::Grayscale { 0x04u8 } else { 0x08u8 }),
        scan_param_block(p)[29] == (if p.color == ColorMode::Grayscale { 8u8 } else { 24u8 }),
{
    let b = scan_param_block(p);
    assert(b.subrange(0, 3) =~= seq![0x01u8, 0x01, 0x01]);
    assert(b.subrange(12, 16) =~= be32(p.x));
    assert(b.subrange(16, 20) =~= be32(p.y));
    assert(b.subrange(20, 24) =~= be32(p.width));
    assert(b.subrange(24, 28) =~= be32(p.height));
}

/// Reads the status word at the start of a binary reply.
pub fn parse_response_status(data: &[u8]) -> (res: Result<PixmaStatus, PixmaError>)
    ensures
        data@.len() < 2 ==> (res matches Err(PixmaError::InvalidPacket(m)) && m@
            == "pixma response too short"@),
        data@.len() >= 2 ==> (res matches Ok(s) && s == status_of(from_be16(data@[0], data@[1]))),
{
    if data.len() < 2 {
        return Err(PixmaError::InvalidPacket(String::from_str("pixma response too short")));
    }
    let status = u16_from_be(data[0], data[1]);
    Ok(PixmaStatus::from(status))
}

/// 0xdb20 StartSession.
pub fn cmd_start_session() -> (buf: Vec<u8>)
    ensures
        buf@ == seq![0xdbu8, 0x20, 0x00, 0x01] + zeros(12),
{
    let mut buf = zero_vec(16);
    buf.set(0, 0xdb);
    buf.set(1, 0x20);
    buf.set(2, 0x00);
    buf.set(3, 0x01);
    assert(buf@ =~= seq![0xdbu8, 0x20, 0x00, 0x01] + zeros(12));
    buf
}

/// 0xef20 AbortSession.
pub fn cmd_abort_session() -> (buf: Vec<u8>)
    ensures
        buf@ == seq![0xefu8, 0x20] + zeros(14),
{
    let mut buf = zero_vec(16);
    buf.set(0, 0xef);
    buf.set(1, 0x20);
    assert(buf@ =~= seq![0xefu8, 0x20] + zeros(14));
    buf
}

/// 0xf320 capability query — param_len=0x0010 requests a 16-byte response.
pub fn cmd_capability_query() -> (buf: Vec<u8>)
    ensures
        buf@ == seq![0xf3u8, 0x20] + zeros(12) + seq![0x00u8, 0x10],
{
    let mut buf = zero_vec(16);
    buf.set(0, 0xf3);
    buf.set(1, 0x20);
    buf.set(14, 0x00);
    buf.set(15, 0x10);
    assert(buf@ =~= seq![0xf3u8, 0x20] + zeros(12) + seq![0x00u8, 0x10]);
    buf
}

/// 0xdc20 get scan dimensions — param_len=0x0008 requests 8 bytes of dimension info.
pub fn cmd_get_scan_dimensions() -> (buf: Vec<u8>)
    ensures
        buf@ == seq![0xdcu8, 0x20] + zeros(12) + seq![0x00u8, 0x08],
{
    let mut buf = zero_vec(16);
    buf.set(0, 0xdc);
    buf.set(1, 0x20);
    buf.set(14, 0x00);
    buf.set(15, 0x08);
    assert(buf@ =~= seq![0xdcu8, 0x20] + zeros(12) + seq![0x00u8, 0x08]);
    buf
}

/// The parameter block that selects the flatbed.
pub open spec fn flatbed_source_params() -> Seq<u8> {
    seq![1u8, 1u8] + zeros(10)
}

/// 0xdd20 SelectSource (flatbed).
pub fn cmd_select_source_flatbed() -> (buf: Vec<u8>)
    ensures
        buf@ == command_bytes(0xdd20, flatbed_source_params()),
{
    let mut data = zero_vec(12);
    data.set(0, 1);
    data.set(1, 1);
    assert(data@ =~= flatbed_source_params());
    build_command(PixmaCmd::SelectSource, data.as_slice())
}

/// The 56-byte ScanParam3 parameter block (before its checksum).
pub open spec fn scan_param_block(p: ScanParams) -> Seq<u8> {
    seq![0x01u8, 0x01, 0x01, 0, 0, 0, 0, 0] + be16(encoded_dpi(p.dpi)) + be16(encoded_dpi(p.dpi))
        + be32(p.x) + be32(p.y) + be32(p.width) + be32(p.height) + seq![
        match p.color {
            ColorMode::Color => 0x08u8,
            ColorMode::Grayscale => 0x04u8,
        },
        match p.color {
            ColorMode::Color => 24u8,
            ColorMode::Grayscale => 8u8,
        },
        0,
        0x01,
        0xff,
        0x82,
        0,
        0x02,
        0x01,
    ] + zeros(11) + seq![0x01u8] + zeros(7)
}

/// 0xd820 ScanParam3: source, resolution, region, color mode and output format.
pub fn cmd_scan_param_3(params: &ScanParams) -> (buf: Vec<u8>)
    ensures
        buf@ == command_bytes(0xd820, scan_param_block(*params)),
{
    let mut data: Vec<u8> = Vec::new();
    data.push(0x01);
    data.push(0x01);
    data.push(0x01);
    push_zeros(&mut data, 5);
    let xdpi = u16_to_be(encode_dpi(params.dpi));
    let ydpi = u16_to_be(encode_dpi(params.dpi));
    push_bytes(&mut data, xdpi.as_slice());
    push_bytes(&mut data, ydpi.as_slice());
    push_bytes(&mut data, u32_to_be(params.x).as_slice());
    push_bytes(&mut data, u32_to_be(params.y).as_slice());
    push_bytes(&mut data, u32_to_be(params.width).as_slice());
    push_bytes(&mut data, u32_to_be(params.height).as_slice());
    match params.color {
        ColorMode::Color => {
            data.push(0x08);
            data.push(24);
        },
        ColorMode::Grayscale => {
            data.push(0x04);
            data.push(8);
        },
    }
    data.push(0);
    data.push(0x01);
    data.push(0xff);
    data.push(0x82);
    data.push(0);
    data.push(0x02);
    data.push(0x01);
    push_zeros(&mut data, 11);
    data.push(0x01);
    push_zeros(&mut data, 7);
    assert(data@ =~= scan_param_block(*params));
    build_command(PixmaCmd::ScanParam3, data.as_slice())
}

/// 0xd920 ScanStart3.
pub fn cmd_scan_start_3() -> (buf: Vec<u8>)
    ensures
        buf@ == seq![0xd9u8, 0x20, 0x00, 0x01] + zeros(12),
{
    let mut buf = zero_vec(16);
    buf.set(0, 0xd9);
    buf.set(1, 0x20);
    buf.set(2, 0x00);
    buf.set(3, 0x01);
    assert(buf@ =~= seq![0xd9u8, 0x20, 0x00, 0x01] + zeros(12));
    buf
}

/// 0xda20 Status3 — param_len=0x0008.
pub fn cmd_status_3() -> (buf: Vec<u8>)
    ensures
        buf@ == seq![0xdau8, 0x20] + zeros(12) + seq![0x00u8, 0x08],
{
    let mut buf = zero_vec(16);
    buf.set(0, 0xda);
    buf.set(1, 0x20);
    buf.set(14, 0x00);
    buf.set(15, 0x08);
    assert(buf@ =~= seq![0xdau8, 0x20] + zeros(12) + seq![0x00u8, 0x08]);
    buf
}

/// Build a ReadImage command. `block_size_64k` is the block size in 64KB units
/// (e.g., 0x0020 = 32 * 64KB = 2MB max).
pub fn cmd_read_image(block_size_64k: u16) -> (buf: Vec<u8>)
    ensures
        buf@ == seq![0xd4u8, 0x20] + zeros(10) + be16(block_size_64k) + seq![0x00u8, 0x00],
{
    let mut buf = zero_vec(16);
    buf.set(0, 0xd4);
    buf.set(1, 0x20);
    let size = u16_to_be(block_size_64k);
    buf.set(12, size[0]);
    buf.set(13, size[1]);
    assert(buf@ =~= seq![0xd4u8, 0x20] + zeros(10) + be16(block_size_64k) + seq![0x00u8, 0x00]);
    buf
}

/// The linear gamma table: entry `i` is `i / 16`.
pub open spec fn linear_gamma_table() -> Seq<u8> {
    Seq::new(4096, |i: int| (i / 16) as u8)
}

/// 0xee20 Gamma with a linear 4096-entry table.
pub fn cmd_gamma_linear() -> (buf: Vec<u8>)
    ensures
        buf@ == command_bytes(0xee20, linear_gamma_table()),
{
    let mut table: Vec<u8> = Vec::new();
    let mut i: usize = 0;
    while i < 4096
        invariant
            i <= 4096,
            table@ == linear_gamma_table().subrange(0, i as int),
        decreases 4096 - i,
    {
        table.push((i >> 4) as u8);
        assert((i >> 4) == i / 16) by (bit_vector);
        i = i + 1;
        assert(table@ =~= linear_gamma_table().subrange(0, i as int));
    }
    assert(table@ =~= linear_gamma_table());
    build_command(PixmaCmd::Gamma, table.as_slice())
}

/// One ReadImage reply.
pub struct ImageBlock {
    pub status: PixmaStatus,
    pub end_of_scan: bool,
    pub data: Vec<u8>,
}

/// The data length field of a ReadImage reply (bytes 12..16).
pub open spec fn block_data_len(response: Seq<u8>) -> nat {
    from_be32(response[12], response[13], response[14], response[15]) as nat
}

/// The image bytes that a ReadImage reply carries: the announced number of
/// bytes after the header, or none when the length is zero or exceeds the reply.
pub open spec fn block_data(response: Seq<u8>) -> Seq<u8> {
    let n = block_data_len(response);
    if n > 0 && response.len() >= 16 + n {
        response.subrange(16, 16 + n as int)
    } else {
        seq![]
    }
}

/// Decodes a ReadImage reply.
pub fn parse_image_block(response: &[u8]) -> (res: Result<ImageBlock, PixmaError>)
    ensures
        response@.len() < 16 ==> (res matches Err(PixmaError::InvalidPacket(m)) && m@
            == "image block response too short"@),
        response@.len() >= 16 ==> (res matches Ok(b) && b.status == status_of(
            from_be16(response@[0], response@[1]),
        ) && b.end_of_scan == (response@[8] & 0x20 != 0) && b.data@ == block_data(response@)),
{
    if response.len() < 16 {
        return Err(PixmaError::InvalidPacket(String::from_str("image block response too short")));
    }
    let status = match parse_response_status(response) {
        Ok(s) => s,
        Err(e) => return Err(e),
    };
    let block_info = response[8];
    let end_of_scan = block_info & 0x20 != 0;
    let data_len = u32_from_be(response[12], response[13], response[14], response[15]);
    let data = if data_len > 0 && response.len() as u64 >= 16 + data_len as u64 {
        slice_to_vec_u8(vstd::slice::slice_subrange(response, 16, 16 + data_len as usize))
    } else {
        Vec::new()
    };
    Ok(ImageBlock { status, end_of_scan, data })
}

fn slice_to_vec_u8(s: &[u8]) -> (v: Vec<u8>)
    ensures
        v@ == s@,
{
    let mut v = Vec::new();
    push_bytes(&mut v, s);
    v
}

} // verus!
