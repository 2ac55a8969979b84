//! The CHMP flatbed scan sequence, as a state machine: the library decides
//! what to send next and what a reply means; the caller performs each
//! exchange and hands back what came of it.
//!
//! Follows the exact Canon PRINT app scan sequence:
//! 1. ModeShift (blank jobID)
//! 2. 0xf320 capability query
//! 3. StartJob XML
//! 4. ModeShift (real jobID)
//! 5. 0xdb20 StartSession
//! 6. 0xf320 capability query
//! 7. 0xd820 ScanParam3
//! 8. 0xd920 ScanStart3
//! 9. 0xda20 Status3 poll (until byte[8]=0x03)
//! 10. 0xdc20 get dimensions
//! 11. 0xd420 ReadImage loop
//! 12. 0xef20 AbortSession
//! 13. EndJob XML
use vstd::prelude::*;
use vstd::string::*;

use crate::error::PixmaError;
use crate::scanner::commands::{
    block_data, cmd_abort_session, cmd_capability_query, cmd_get_scan_dimensions,
    cmd_read_image, cmd_scan_param_3, cmd_scan_start_3, cmd_start_session, cmd_status_3,
    command_bytes, lemma_status_words, parse_image_block, parse_response_status, scan_param_block, status_of,
    ColorMode, PixmaStatus, ScanParams,
};
use crate::text::{
    append_decimal, chars_of, contains_chars, contains_text, decimal, lossy_utf8, string_of,
    utf8_lossy,
};
use crate::wire::{be16, from_be16, from_be32, push_bytes, zeros};

verus! {

/// Block size for ReadImage in 64KB units (0x0020 = 32 * 64KB = 2MB).
pub const READ_BLOCK_SIZE_64K: u16 = 0x0020;

/// Seconds to wait for the scanner to report data-ready (0x03) during the
/// Status3 poll. A cold scanner can spend a while "warming up" (status 0x02),
/// but if it never advances the scan fails instead of hanging forever.
pub const STATUS_POLL_TIMEOUT_SECS: u64 = 120;

/// Milliseconds between two Status3 polls.
pub const STATUS_POLL_INTERVAL_MS: u64 = 500;

pub const XML_START_JOB: &'static str = r#"<?xml version="1.0" encoding="utf-8" ?><cmd xmlns:ivec="http://www.canon.com/ns/cmd/2008/07/common/"><ivec:contents><ivec:operation>StartJob</ivec:operation><ivec:param_set servicetype="scan"><ivec:jobID>00000001</ivec:jobID><ivec:bidi>1</ivec:bidi></ivec:param_set></ivec:contents></cmd>"#;

pub const XML_MODE_SHIFT: &'static str = r#"<?xml version="1.0" encoding="utf-8" ?><cmd xmlns:ivec="http://www.canon.com/ns/cmd/2008/07/common/" xmlns:vcn="http://www.canon.com/ns/cmd/2008/07/canon/"><ivec:contents><ivec:operation>VendorCmd</ivec:operation><ivec:param_set servicetype="scan"><ivec:jobID>00000001</ivec:jobID><vcn:ijoperation>ModeShift</vcn:ijoperation><vcn:ijmode>1</vcn:ijmode></ivec:param_set></ivec:contents></cmd>"#;

pub const XML_MODE_SHIFT_BLANK: &'static str = r#"<?xml version="1.0" encoding="utf-8" ?><cmd xmlns:ivec="http://www.canon.com/ns/cmd/2008/07/common/" xmlns:vcn="http://www.canon.com/ns/cmd/2008/07/canon/"><ivec:contents><ivec:operation>VendorCmd</ivec:operation><ivec:param_set servicetype="scan"><ivec:jobID> </ivec:jobID><vcn:ijoperation>ModeShift</vcn:ijoperation><vcn:ijmode>1</vcn:ijmode></ivec:param_set></ivec:contents></cmd>"#;

pub const XML_END_JOB: &'static str = r#"<?xml version="1.0" encoding="utf-8" ?><cmd xmlns:ivec="http://www.canon.com/ns/cmd/2008/07/common/"><ivec:contents><ivec:operation>EndJob</ivec:operation><ivec:param_set servicetype="scan"><ivec:jobID>00000001</ivec:jobID></ivec:param_set></ivec:contents></cmd>"#;

/// Raw scan result — contains JPEG data from the scanner.
pub struct ScanResult {
    /// JPEG image bytes (starts with `ff d8 ff e0`).
    pub data: Vec<u8>,
    /// True if data is JPEG-compressed (always true for CHMP scans).
    pub is_jpeg: bool,
    pub width: u32,
    pub height: u32,
    pub channels: u32,
}

/// Whether an XML reply says `OK`: its text (invalid UTF-8 replaced) contains `OK`.
pub open spec fn holds_ok(resp: Seq<u8>) -> bool {
    contains_text(lossy_utf8(resp), "OK"@)
}

/// The message of a rejected XML step.
pub open spec fn rejected_message(label: Seq<char>, resp: Seq<u8>) -> Seq<char> {
    label + " rejected: "@ + lossy_utf8(resp)
}

/// Accepts an XML reply that says `OK`.
fn check_xml_ok(resp: &[u8], label: &str) -> (res: Result<(), PixmaError>)
    ensures
        holds_ok(resp@) ==> res is Ok,
        !holds_ok(resp@) ==> (res matches Err(PixmaError::Protocol(m)) && m@ == rejected_message(
            label@,
            resp@,
        )),
{
    let text = utf8_lossy(resp);
    let chars = chars_of(text.as_str());
    let ok = chars_of("OK");
    if !contains_chars(chars.as_slice(), ok.as_slice()) {
        let mut m = string_of(label);
        m.append(" rejected: ");
        m.append(text.as_str());
        return Err(PixmaError::Protocol(m));
    }
    Ok(())
}

/// `{:?}` of a status.
pub open spec fn status_text(s: PixmaStatus) -> Seq<char> {
    match s {
        PixmaStatus::Success => "Ok"@,
        PixmaStatus::Busy => "Busy"@,
        PixmaStatus::Failed => "Failed"@,
        PixmaStatus::Unknown(v) => "Unknown("@ + decimal(v as nat) + ")"@,
    }
}

fn append_status_text(m: &mut String, s: PixmaStatus)
    ensures
        final(m)@ == old(m)@ + status_text(s),
{
    match s {
        PixmaStatus::Success => m.append("Ok"),
        PixmaStatus::Busy => m.append("Busy"),
        PixmaStatus::Failed => m.append("Failed"),
        PixmaStatus::Unknown(v) => {
            m.append("Unknown(");
            append_decimal(m, v as u64);
            m.append(")");
            assert(m@ =~= old(m)@ + status_text(s));
        },
    }
}

/// Accepts a binary reply whose status word is OK.
fn check_binary_ok(resp: &[u8], label: &str) -> (res: Result<(), PixmaError>)
    ensures
        resp@.len() < 2 ==> (res matches Err(PixmaError::InvalidPacket(m)) && m@
            == "pixma response too short"@),
        resp@.len() >= 2 && status_of(from_be16(resp@[0], resp@[1])) == PixmaStatus::Success
            ==> res is Ok,
        resp@.len() >= 2 && status_of(from_be16(resp@[0], resp@[1])) != PixmaStatus::Success
            ==> (res matches Err(PixmaError::Protocol(m)) && m@ == label@ + ": "@ + status_text(
            status_of(from_be16(resp@[0], resp@[1])),
        )),
{
    let status = match parse_response_status(resp) {
        Ok(s) => s,
        Err(e) => return Err(e),
    };
    if status != PixmaStatus::Success {
        let mut m = string_of(label);
        m.append(": ");
        append_status_text(&mut m, status);
        return Err(PixmaError::Protocol(m));
    }
    Ok(())
}

/// Where a scan session stands: the step whose reply it waits for.
#[derive(Debug, Clone, Copy, PartialEq, Eq, Structural)]
pub enum ScanPhase {
    ModeShiftBlank,
    CapabilityQuery,
    StartJob,
    ModeShift,
    StartSession,
    CapabilityRequery,
    ScanParam,
    ScanStart,
    StatusPoll,
    Dimensions,
    ReadImage,
    AbortSession,
    EndJob,
    Complete,
    Failed,
}

/// The step after `phase` in the scan sequence (the poll and read loops aside).
pub open spec fn successor(phase: ScanPhase) -> ScanPhase {
    match phase {
        ScanPhase::ModeShiftBlank => ScanPhase::CapabilityQuery,
        ScanPhase::CapabilityQuery => ScanPhase::StartJob,
        ScanPhase::StartJob => ScanPhase::ModeShift,
        ScanPhase::ModeShift => ScanPhase::StartSession,
        ScanPhase::StartSession => ScanPhase::CapabilityRequery,
        ScanPhase::CapabilityRequery => ScanPhase::ScanParam,
        ScanPhase::ScanParam => ScanPhase::ScanStart,
        ScanPhase::ScanStart => ScanPhase::StatusPoll,
        ScanPhase::StatusPoll => ScanPhase::Dimensions,
        ScanPhase::Dimensions => ScanPhase::ReadImage,
        ScanPhase::ReadImage => ScanPhase::AbortSession,
        ScanPhase::AbortSession => ScanPhase::EndJob,
        ScanPhase::EndJob => ScanPhase::Complete,
        ScanPhase::Complete => ScanPhase::Complete,
        ScanPhase::Failed => ScanPhase::Failed,
    }
}

/// The bytes sent in `phase`.
pub open spec fn phase_request(phase: ScanPhase, p: ScanParams) -> Seq<u8> {
    match phase {
        ScanPhase::ModeShiftBlank => XML_MODE_SHIFT_BLANK.spec_bytes(),
        ScanPhase::CapabilityQuery => seq![0xf3u8, 0x20] + zeros(12) + seq![0x00u8, 0x10],
        ScanPhase::StartJob => XML_START_JOB.spec_bytes(),
        ScanPhase::ModeShift => XML_MODE_SHIFT.spec_bytes(),
        ScanPhase::StartSession => seq![0xdbu8, 0x20, 0x00, 0x01] + zeros(12),
        ScanPhase::CapabilityRequery => seq![0xf3u8, 0x20] + zeros(12) + seq![0x00u8, 0x10],
        ScanPhase::ScanParam => command_bytes(0xd820, scan_param_block(p)),
        ScanPhase::ScanStart => seq![0xd9u8, 0x20, 0x00, 0x01] + zeros(12),
        ScanPhase::StatusPoll => seq![0xdau8, 0x20] + zeros(12) + seq![0x00u8, 0x08],
        ScanPhase::Dimensions => seq![0xdcu8, 0x20] + zeros(12) + seq![0x00u8, 0x08],
        ScanPhase::ReadImage => seq![0xd4u8, 0x20] + zeros(10) + be16(READ_BLOCK_SIZE_64K) + seq![
            0x00u8,
            0x00,
        ],
        ScanPhase::AbortSession => seq![0xefu8, 0x20] + zeros(14),
        ScanPhase::EndJob => XML_END_JOB.spec_bytes(),
        _ => seq![],
    }
}

/// What happened to the last exchange, or that the poll deadline passed.
pub enum ScanEvent {
    /// The scanner's reply to the last request.
    Response(Vec<u8>),
    /// The exchange itself failed.
    ExchangeFailed(PixmaError),
    /// The Status3 poll has run for `STATUS_POLL_TIMEOUT_SECS` without data-ready.
    PollDeadlinePassed,
}

/// What the caller must do next.
pub enum ScanAction {
    /// Exchange these bytes and report the outcome.
    Exchange(Vec<u8>),
    /// Wait `STATUS_POLL_INTERVAL_MS`, exchange these bytes and report the
    /// outcome; report `PollDeadlinePassed` instead once the poll deadline,
    /// counted from the first poll, has passed.
    PollStatus(Vec<u8>),
    /// The scan is complete.
    Finished(ScanResult),
    /// The scan failed.
    Stopped(PixmaError),
}

/// Whether `action` sends the request of `phase`.
pub open spec fn requests(action: ScanAction, phase: ScanPhase, p: ScanParams) -> bool {
    if phase == ScanPhase::StatusPoll {
        action matches ScanAction::PollStatus(b) && b@ == phase_request(phase, p)
    } else {
        action matches ScanAction::Exchange(b) && b@ == phase_request(phase, p)
    }
}

/// The label of a step whose reply is checked.
pub open spec fn phase_label(phase: ScanPhase) -> Seq<char> {
    match phase {
        ScanPhase::ModeShiftBlank => "ModeShift (blank)"@,
        ScanPhase::StartJob => "StartJob"@,
        ScanPhase::ModeShift => "ModeShift"@,
        ScanPhase::StartSession => "StartSession"@,
        ScanPhase::ScanParam => "ScanParam3"@,
        ScanPhase::ScanStart => "ScanStart3"@,
        _ => seq![],
    }
}

/// Steps whose XML reply must say OK.
pub open spec fn is_xml_checked(phase: ScanPhase) -> bool {
    phase == ScanPhase::ModeShiftBlank || phase == ScanPhase::StartJob || phase
        == ScanPhase::ModeShift
}

/// Steps whose binary reply must carry status OK.
pub open spec fn is_binary_checked(phase: ScanPhase) -> bool {
    phase == ScanPhase::StartSession || phase == ScanPhase::ScanParam || phase
        == ScanPhase::ScanStart
}

/// Steps whose reply is not looked at.
pub open spec fn is_unchecked(phase: ScanPhase) -> bool {
    phase == ScanPhase::CapabilityQuery || phase == ScanPhase::CapabilityRequery || phase
        == ScanPhase::Dimensions
}

/// Whether a Status3 reply reports data-ready.
pub open spec fn data_ready(resp: Seq<u8>) -> bool {
    resp.len() >= 9 && resp[8] == 0x03u8
}

/// The number of channels of a color mode.
pub open spec fn channels_of(color: ColorMode) -> u32 {
    match color {
        ColorMode::Color => 3,
        ColorMode::Grayscale => 1,
    }
}

/// The effect of a reply `r` received in phase `ph`, with parameters `p` and
/// image bytes `d` so far: the next phase `ph2`, image bytes `d2` and action `a`.
pub open spec fn reply_outcome(
    ph: ScanPhase,
    p: ScanParams,
    d: Seq<u8>,
    r: Seq<u8>,
    ph2: ScanPhase,
    d2: Seq<u8>,
    a: ScanAction,
) -> bool {
    if is_xml_checked(ph) {
        if holds_ok(r) {
            ph2 == successor(ph) && d2 == d && requests(a, successor(ph), p)
        } else {
            ph2 == ScanPhase::Failed && d2 == d && (a matches ScanAction::Stopped(
                PixmaError::Protocol(m),
            ) && m@ == rejected_message(phase_label(ph), r))
        }
    } else if is_binary_checked(ph) {
        if r.len() < 2 {
            ph2 == ScanPhase::Failed && d2 == d && (a matches ScanAction::Stopped(
                PixmaError::InvalidPacket(m),
            ) && m@ == "pixma response too short"@)
        } else if status_of(from_be16(r[0], r[1])) == PixmaStatus::Success {
            ph2 == successor(ph) && d2 == d && requests(a, successor(ph), p)
        } else {
            ph2 == ScanPhase::Failed && d2 == d && (a matches ScanAction::Stopped(
                PixmaError::Protocol(m),
            ) && m@ == phase_label(ph) + ": "@ + status_text(status_of(from_be16(r[0], r[1]))))
        }
    } else if is_unchecked(ph) {
        ph2 == successor(ph) && d2 == d && requests(a, successor(ph), p)
    } else if ph == ScanPhase::StatusPoll {
        d2 == d && if data_ready(r) {
            ph2 == ScanPhase::Dimensions && requests(a, ScanPhase::Dimensions, p)
        } else {
            ph2 == ScanPhase::StatusPoll && requests(a, ScanPhase::StatusPoll, p)
        }
    } else if ph == ScanPhase::ReadImage {
        if r.len() < 16 {
            ph2 == ScanPhase::Failed && d2 == d && (a matches ScanAction::Stopped(
                PixmaError::InvalidPacket(m),
            ) && m@ == "image block response too short"@)
        } else {
            let st = status_of(from_be16(r[0], r[1]));
            if st != PixmaStatus::Success && st != PixmaStatus::Busy {
                ph2 == ScanPhase::Failed && d2 == d && (a matches ScanAction::Stopped(
                    PixmaError::ScanFailed(m),
                ) && m@ == "ReadImage: "@ + status_text(st))
            } else if r[8] & 0x20 != 0 {
                ph2 == ScanPhase::AbortSession && d2 == d + block_data(r) && requests(
                    a,
                    ScanPhase::AbortSession,
                    p,
                )
            } else {
                ph2 == ScanPhase::ReadImage && d2 == d + block_data(r) && requests(
                    a,
                    ScanPhase::ReadImage,
                    p,
                )
            }
        }
    } else if ph == ScanPhase::AbortSession {
        ph2 == ScanPhase::EndJob && d2 == d && requests(a, ScanPhase::EndJob, p)
    } else {
        ph2 == ScanPhase::Complete && finishes(a, d, p)
    }
}

/// Whether `a` ends the scan with image bytes `data`.
pub open spec fn finishes(a: ScanAction, data: Seq<u8>, p: ScanParams) -> bool {
    a matches ScanAction::Finished(r) && r.data@ == data && r.is_jpeg && r.width == p.width
        && r.height == p.height && r.channels == channels_of(p.color)
}

/// The effect of event `ev` in phase `ph`, with parameters `p` and image
/// bytes `d` so far: the next phase `ph2`, image bytes `d2` and action `a`. A
/// failed AbortSession or EndJob exchange does not stop the scan.
pub open spec fn event_outcome(
    ph: ScanPhase,
    p: ScanParams,
    d: Seq<u8>,
    ev: ScanEvent,
    ph2: ScanPhase,
    d2: Seq<u8>,
    a: ScanAction,
) -> bool {
    match ev {
        ScanEvent::ExchangeFailed(e) => if ph == ScanPhase::AbortSession {
            ph2 == ScanPhase::EndJob && d2 == d && requests(a, ScanPhase::EndJob, p)
        } else if ph == ScanPhase::EndJob {
            ph2 == ScanPhase::Complete && finishes(a, d, p)
        } else {
            ph2 == ScanPhase::Failed && d2 == d && a == ScanAction::Stopped(e)
        },
        ScanEvent::PollDeadlinePassed => ph2 == ScanPhase::Failed && d2 == d && (
        a matches ScanAction::Stopped(PixmaError::ScanFailed(m)) && m@
            == "scanner never reported data-ready; stuck warming up after 120s"@),
        ScanEvent::Response(r) => reply_outcome(ph, p, d, r@, ph2, d2, a),
    }
}

/// A finished scan carries the image bytes collected, as JPEG, with the
/// requested size, and one channel for a grayscale scan, three for colour.
pub proof fn lemma_finished_result(a: ScanAction, data: Seq<u8>, p: ScanParams)
    requires
        finishes(a, data, p),
    ensures
        a matches ScanAction::Finished(r) && r.data@ == data && r.is_jpeg && r.width == p.width
            && r.height == p.height && (p.color == ColorMode::Grayscale ==> r.channels == 1) && (
        p.color == ColorMode::Color ==> r.channels == 3),
{
}

/// A Status3 reply moves the scan on to the dimensions exactly when its byte 8
/// is 0x03 (data ready); any other reply keeps polling. No image data changes.
pub proof fn lemma_poll_reply(
    p: ScanParams,
    d: Seq<u8>,
    r: Seq<u8>,
    ph2: ScanPhase,
    d2: Seq<u8>,
    a: ScanAction,
)
    requires
        reply_outcome(ScanPhase::StatusPoll, p, d, r, ph2, d2, a),
    ensures
        ph2 == (if r.len() >= 9 && r[8] == 0x03 {
            ScanPhase::Dimensions
        } else {
            ScanPhase::StatusPoll
        }),
        d2 == d,
{
}

/// A full ReadImage reply with status OK (0x0606) or busy (0x1414) appends its
/// announced bytes (the big-endian length at bytes 12..16, the data from byte
/// 16, when they are all there) to the image, and ends the read loop exactly
/// when bit 0x20 of byte 8 is set; any other status fails the scan.
pub proof fn lemma_read_reply(
    p: ScanParams,
    d: Seq<u8>,
    r: Seq<u8>,
    ph2: ScanPhase,
    d2: Seq<u8>,
    a: ScanAction,
)
    requires
        reply_outcome(ScanPhase::ReadImage, p, d, r, ph2, d2, a),
        r.len() >= 16,
    ensures
        ({
            let w = r[0] as int * 256 + r[1] as int;
            let n = r[12] as int * 0x100_0000 + r[13] as int * 0x1_0000 + r[14] as int * 256
                + r[15] as int;
            &&& (w != 0x0606 && w != 0x1414) ==> ph2 == ScanPhase::Failed && d2 == d
            &&& (w == 0x0606 || w == 0x1414) ==> {
                &&& ph2 == (if r[8] & 0x20 != 0 {
                    ScanPhase::AbortSession
                } else {
                    ScanPhase::ReadImage
                })
                &&& d2 == (if n > 0 && r.len() >= 16 + n {
                    d + r.subrange(16, 16 + n)
                } else {
                    d
                })
            }
        }),
{
    let w = r[0] as int * 256 + r[1] as int;
    assert(from_be16(r[0], r[1]) == w);
    assert(from_be32(r[12], r[13], r[14], r[15]) == r[12] as int * 0x100_0000 + r[13] as int
        * 0x1_0000 + r[14] as int * 256 + r[15] as int);
    lemma_status_words(from_be16(r[0], r[1]));
    if !(r[12] as int * 0x100_0000 + r[13] as int * 0x1_0000 + r[14] as int * 256
        + r[15] as int > 0) {
        assert(d + seq![] =~= d);
    }
}

/// The state of one flatbed scan.
pub struct ScanSession {
    params: ScanParams,
    phase: ScanPhase,
    image_data: Vec<u8>,
}

impl ScanSession {
    /// The scan's parameters.
    pub closed spec fn spec_params(&self) -> ScanParams {
        self.params
    }

    /// The step whose reply the session waits for.
    pub closed spec fn spec_phase(&self) -> ScanPhase {
        self.phase
    }

    /// The image bytes received so far.
    pub closed spec fn spec_data(&self) -> Seq<u8> {
        self.image_data@
    }

    /// Whether the session has ended.
    pub open spec fn is_over(&self) -> bool {
        self.spec_phase() == ScanPhase::Complete || self.spec_phase() == ScanPhase::Failed
    }

    /// The step whose reply the session waits for.
    pub fn phase(&self) -> (p: ScanPhase)
        ensures
            p == self.spec_phase(),
    {
        self.phase
    }

    /// Starts a scan: the session and its first request (ModeShift, blank jobID).
    pub fn start(params: &ScanParams) -> (r: (ScanSession, ScanAction))
        ensures
            r.0.spec_params() == *params,
            r.0.spec_phase() == ScanPhase::ModeShiftBlank,
            r.0.spec_data() == Seq::<u8>::empty(),
            requests(r.1, ScanPhase::ModeShiftBlank, *params),
    {
        let s = ScanSession { params: *params, phase: ScanPhase::ModeShiftBlank, image_data: Vec::new() };
        let a = s.request();
        (s, a)
    }

    fn request(&self) -> (a: ScanAction)
        requires
            !self.is_over(),
        ensures
            requests(a, self.spec_phase(), self.spec_params()),
    {
        match self.phase {
            ScanPhase::ModeShiftBlank => ScanAction::Exchange(str_bytes(XML_MODE_SHIFT_BLANK)),
            ScanPhase::CapabilityQuery => ScanAction::Exchange(cmd_capability_query()),
            ScanPhase::StartJob => ScanAction::Exchange(str_bytes(XML_START_JOB)),
            ScanPhase::ModeShift => ScanAction::Exchange(str_bytes(XML_MODE_SHIFT)),
            ScanPhase::StartSession => ScanAction::Exchange(cmd_start_session()),
            ScanPhase::CapabilityRequery => ScanAction::Exchange(cmd_capability_query()),
            ScanPhase::ScanParam => ScanAction::Exchange(cmd_scan_param_3(&self.params)),
            ScanPhase::ScanStart => ScanAction::Exchange(cmd_scan_start_3()),
            ScanPhase::StatusPoll => ScanAction::PollStatus(cmd_status_3()),
            ScanPhase::Dimensions => ScanAction::Exchange(cmd_get_scan_dimensions()),
            ScanPhase::ReadImage => ScanAction::Exchange(cmd_read_image(READ_BLOCK_SIZE_64K)),
            ScanPhase::AbortSession => ScanAction::Exchange(cmd_abort_session()),
            ScanPhase::EndJob => ScanAction::Exchange(str_bytes(XML_END_JOB)),
            _ => ScanAction::Exchange(Vec::new()),
        }
    }

    fn advance(&mut self, next: ScanPhase) -> (a: ScanAction)
        requires
            next != ScanPhase::Complete,
            next != ScanPhase::Failed,
        ensures
            final(self).spec_phase() == next,
            final(self).spec_params() == old(self).spec_params(),
            final(self).spec_data() == old(self).spec_data(),
            requests(a, next, old(self).spec_params()),
    {
        self.phase = next;
        self.request()
    }

    fn fail(&mut self, e: PixmaError) -> (a: ScanAction)
        ensures
            final(self).spec_phase() == ScanPhase::Failed,
            final(self).spec_params() == old(self).spec_params(),
            final(self).spec_data() == old(self).spec_data(),
            a == ScanAction::Stopped(e),
    {
        self.phase = ScanPhase::Failed;
        ScanAction::Stopped(e)
    }

    /// Takes in what came of the last request and decides the next one.
    pub fn step(&mut self, event: ScanEvent) -> (a: ScanAction)
        requires
            !old(self).is_over(),
            event is PollDeadlinePassed ==> old(self).spec_phase() == ScanPhase::StatusPoll,
        ensures
            final(self).spec_params() == old(self).spec_params(),
            event_outcome(
                old(self).spec_phase(),
                old(self).spec_params(),
                old(self).spec_data(),
                event,
                final(self).spec_phase(),
                final(self).spec_data(),
                a,
            ),
    {
        match event {
            ScanEvent::ExchangeFailed(e) => {
                match self.phase {
                    ScanPhase::AbortSession => self.advance(ScanPhase::EndJob),
                    ScanPhase::EndJob => self.finish(),
                    _ => self.fail(e),
                }
            },
            ScanEvent::PollDeadlinePassed => {
                let m = string_of("scanner never reported data-ready; stuck warming up after 120s");
                self.fail(PixmaError::ScanFailed(m))
            },
            ScanEvent::Response(resp) => self.on_response(resp.as_slice()),
        }
    }

    fn on_response(&mut self, resp: &[u8]) -> (a: ScanAction)
        requires
            !old(self).is_over(),
        ensures
            final(self).spec_params() == old(self).spec_params(),
            reply_outcome(old(self).spec_phase(), old(self).spec_params(), old(self).spec_data(), resp@, final(self).spec_phase(), final(self).spec_data(), a),
    {
        match self.phase {
            ScanPhase::ModeShiftBlank | ScanPhase::StartJob | ScanPhase::ModeShift => {
                let label = match self.phase {
                    ScanPhase::ModeShiftBlank => "ModeShift (blank)",
                    ScanPhase::StartJob => "StartJob",
                    _ => "ModeShift",
                };
                match check_xml_ok(resp, label) {
                    Ok(()) => {
                        let next = match self.phase {
                            ScanPhase::ModeShiftBlank => ScanPhase::CapabilityQuery,
                            ScanPhase::StartJob => ScanPhase::ModeShift,
                            _ => ScanPhase::StartSession,
                        };
                        self.advance(next)
                    },
                    Err(e) => self.fail(e),
                }
            },
            ScanPhase::StartSession | ScanPhase::ScanParam | ScanPhase::ScanStart => {
                let label = match self.phase {
                    ScanPhase::StartSession => "StartSession",
                    ScanPhase::ScanParam => "ScanParam3",
                    _ => "ScanStart3",
                };
                match check_binary_ok(resp, label) {
                    Ok(()) => {
                        let next = match self.phase {
                            ScanPhase::StartSession => ScanPhase::CapabilityRequery,
                            ScanPhase::ScanParam => ScanPhase::ScanStart,
                            _ => ScanPhase::StatusPoll,
                        };
                        self.advance(next)
                    },
                    Err(e) => self.fail(e),
                }
            },
            ScanPhase::CapabilityQuery => self.advance(ScanPhase::StartJob),
            ScanPhase::CapabilityRequery => self.advance(ScanPhase::ScanParam),
            ScanPhase::Dimensions => self.advance(ScanPhase::ReadImage),
            ScanPhase::StatusPoll => {
                if resp.len() >= 9 && resp[8] == 0x03 {
                    self.advance(ScanPhase::Dimensions)
                } else {
                    self.request()
                }
            },
            ScanPhase::ReadImage => {
                let block = match parse_image_block(resp) {
                    Ok(b) => b,
                    Err(e) => return self.fail(e),
                };
                if block.status != PixmaStatus::Success && block.status != PixmaStatus::Busy {
                    let mut m = string_of("ReadImage: ");
                    append_status_text(&mut m, block.status);
                    return self.fail(PixmaError::ScanFailed(m));
                }
                push_bytes(&mut self.image_data, block.data.as_slice());
                if block.end_of_scan {
                    self.advance(ScanPhase::AbortSession)
                } else {
                    self.request()
                }
            },
            ScanPhase::AbortSession => self.advance(ScanPhase::EndJob),
            _ => self.finish(),
        }
    }

    fn finish(&mut self) -> (a: ScanAction)
        ensures
            final(self).spec_phase() == ScanPhase::Complete,
            final(self).spec_params() == old(self).spec_params(),
            finishes(a, old(self).spec_data(), old(self).spec_params()),
    {
        let mut data: Vec<u8> = Vec::new();
        std::mem::swap(&mut data, &mut self.image_data);
        self.phase = ScanPhase::Complete;
        let channels: u32 = match self.params.color {
            ColorMode::Color => 3,
            ColorMode::Grayscale => 1,
        };
        ScanAction::Finished(
            ScanResult {
                data,
                is_jpeg: true,
                width: self.params.width,
                height: self.params.height,
                channels,
            },
        )
    }
}

/// The UTF-8 bytes of a text.
fn str_bytes(s: &str) -> (b: Vec<u8>)
    ensures
        b@ == s.spec_bytes(),
{
    let mut b = Vec::new();
    push_bytes(&mut b, s.as_bytes());
    b
}


/// The image data of a run of ReadImage replies, in order.
pub open spec fn concat_blocks(replies: Seq<Seq<u8>>) -> Seq<u8>
    decreases replies.len(),
{
    if replies.len() == 0 {
        seq![]
    } else {
        concat_blocks(replies.drop_last()) + block_data(replies.last())
    }
}

/// Whether the session accepts a ReadImage reply: a full header with status
/// OK or busy.
pub open spec fn accepted_block(r: Seq<u8>) -> bool {
    r.len() >= 16 && (status_of(from_be16(r[0], r[1])) == PixmaStatus::Success || status_of(
        from_be16(r[0], r[1]),
    ) == PixmaStatus::Busy)
}

/// Step `i` of a run: in ReadImage, the session accepts reply `i` and moves
/// from state `i` to state `i + 1`.
pub open spec fn accepted_read_step(
    p: ScanParams,
    replies: Seq<Seq<u8>>,
    phases: Seq<ScanPhase>,
    datas: Seq<Seq<u8>>,
    actions: Seq<ScanAction>,
    i: int,
) -> bool {
    phases[i] == ScanPhase::ReadImage && accepted_block(replies[i]) && reply_outcome(
        phases[i],
        p,
        datas[i],
        replies[i],
        phases[i + 1],
        datas[i + 1],
        actions[i],
    )
}

/// Over a run of accepted ReadImage replies, the image bytes are those before
/// the run followed by each reply's data, in order.
pub proof fn lemma_read_loop_concatenates(
    p: ScanParams,
    replies: Seq<Seq<u8>>,
    phases: Seq<ScanPhase>,
    datas: Seq<Seq<u8>>,
    actions: Seq<ScanAction>,
)
    requires
        phases.len() == replies.len() + 1,
        datas.len() == replies.len() + 1,
        actions.len() == replies.len(),
        forall|i: int|
            0 <= i < replies.len() ==> #[trigger] accepted_read_step(
                p,
                replies,
                phases,
                datas,
                actions,
                i,
            ),
    ensures
        datas[replies.len() as int] == datas[0] + concat_blocks(replies),
{
    lemma_read_prefix(p, replies, phases, datas, actions, replies.len() as int);
    assert(replies.take(replies.len() as int) =~= replies);
}

proof fn lemma_read_prefix(
    p: ScanParams,
    replies: Seq<Seq<u8>>,
    phases: Seq<ScanPhase>,
    datas: Seq<Seq<u8>>,
    actions: Seq<ScanAction>,
    k: int,
)
    requires
        0 <= k <= replies.len(),
        phases.len() == replies.len() + 1,
        datas.len() == replies.len() + 1,
        actions.len() == replies.len(),
        forall|i: int|
            0 <= i < replies.len() ==> #[trigger] accepted_read_step(
                p,
                replies,
                phases,
                datas,
                actions,
                i,
            ),
    ensures
        datas[k] == datas[0] + concat_blocks(replies.take(k)),
    decreases k,
{
    if k == 0 {
        assert(datas[0] + concat_blocks(replies.take(0)) =~= datas[0]);
    } else {
        lemma_read_prefix(p, replies, phases, datas, actions, k - 1);
        assert(accepted_read_step(p, replies, phases, datas, actions, k - 1));
        assert(replies.take(k).drop_last() =~= replies.take(k - 1));
        assert(datas[k] == datas[k - 1] + block_data(replies[k - 1]));
        assert(datas[0] + concat_blocks(replies.take(k)) =~= (datas[0] + concat_blocks(
            replies.take(k - 1),
        )) + block_data(replies[k - 1]));
    }
}

/// The phase of step `i` of a scan whose status poll takes `k` replies and
/// whose read loop takes `m` blocks: the eight opening steps, `k` polls, the
/// dimensions, `m` reads, AbortSession, EndJob, then complete.
pub open spec fn run_phase(k: int, m: int, i: int) -> ScanPhase {
    if i == 0 {
        ScanPhase::ModeShiftBlank
    } else if i == 1 {
        ScanPhase::CapabilityQuery
    } else if i == 2 {
        ScanPhase::StartJob
    } else if i == 3 {
        ScanPhase::ModeShift
    } else if i == 4 {
        ScanPhase::StartSession
    } else if i == 5 {
        ScanPhase::CapabilityRequery
    } else if i == 6 {
        ScanPhase::ScanParam
    } else if i == 7 {
        ScanPhase::ScanStart
    } else if i < 8 + k {
        ScanPhase::StatusPoll
    } else if i == 8 + k {
        ScanPhase::Dimensions
    } else if i < 9 + k + m {
        ScanPhase::ReadImage
    } else if i == 9 + k + m {
        ScanPhase::AbortSession
    } else if i == 10 + k + m {
        ScanPhase::EndJob
    } else {
        ScanPhase::Complete
    }
}

/// Whether reply `r` lets a scan go on from phase `ph`: an XML reply says OK,
/// a binary reply has status OK, a poll reply is data-ready exactly on the
/// last poll, a read reply is a full block with status OK or busy that ends
/// the scan exactly on the last read.
pub open spec fn answers(ph: ScanPhase, r: Seq<u8>, last_poll: bool, last_read: bool) -> bool {
    if is_xml_checked(ph) {
        holds_ok(r)
    } else if is_binary_checked(ph) {
        r.len() >= 2 && status_of(from_be16(r[0], r[1])) == PixmaStatus::Success
    } else if ph == ScanPhase::StatusPoll {
        data_ready(r) == last_poll
    } else if ph == ScanPhase::ReadImage {
        accepted_block(r) && ((r[8] & 0x20 != 0) == last_read)
    } else {
        true
    }
}

/// Whether event `i` of a scan with `k` polls and `m` reads lets it go on: a
/// reply that `answers` its step, or, for AbortSession and EndJob, a reply or
/// a failed exchange.
pub open spec fn well_answered(k: int, m: int, i: int, ev: ScanEvent) -> bool {
    let ph = run_phase(k, m, i);
    if ph == ScanPhase::AbortSession || ph == ScanPhase::EndJob {
        ev is Response || ev is ExchangeFailed
    } else {
        ev matches ScanEvent::Response(r) && answers(ph, r@, i == 7 + k, i == 8 + k + m)
    }
}

/// The reply that an event carries (none for the others).
pub open spec fn reply_of(ev: ScanEvent) -> Seq<u8> {
    match ev {
        ScanEvent::Response(r) => r@,
        _ => seq![],
    }
}

/// The replies of events `lo..hi`.
pub open spec fn replies_between(events: Seq<ScanEvent>, lo: int, hi: int) -> Seq<Seq<u8>> {
    Seq::new((hi - lo) as nat, |j: int| reply_of(events[lo + j]))
}

/// The image bytes that a scan with `k` polls and `m` reads holds before step `i`.
pub open spec fn run_data(k: int, m: int, events: Seq<ScanEvent>, i: int) -> Seq<u8> {
    if i <= 9 + k {
        seq![]
    } else if i <= 9 + k + m {
        concat_blocks(replies_between(events, 9 + k, i))
    } else {
        concat_blocks(replies_between(events, 9 + k, 9 + k + m))
    }
}

/// Step `i` of a run: the session in state `i` takes event `i` to state `i + 1`.
pub open spec fn run_step(
    p: ScanParams,
    events: Seq<ScanEvent>,
    phases: Seq<ScanPhase>,
    datas: Seq<Seq<u8>>,
    actions: Seq<ScanAction>,
    i: int,
) -> bool {
    event_outcome(phases[i], p, datas[i], events[i], phases[i + 1], datas[i + 1], actions[i])
}

proof fn lemma_run_step(
    p: ScanParams,
    k: int,
    m: int,
    events: Seq<ScanEvent>,
    phases: Seq<ScanPhase>,
    datas: Seq<Seq<u8>>,
    actions: Seq<ScanAction>,
    i: int,
)
    requires
        k >= 1,
        m >= 1,
        0 <= i < 11 + k + m,
        events.len() == 11 + k + m,
        phases.len() == events.len() + 1,
        datas.len() == events.len() + 1,
        actions.len() == events.len(),
        phases[i] == run_phase(k, m, i),
        datas[i] == run_data(k, m, events, i),
        run_step(p, events, phases, datas, actions, i),
        well_answered(k, m, i, events[i]),
    ensures
        phases[i + 1] == run_phase(k, m, i + 1),
        i + 1 < 11 + k + m ==> datas[i + 1] == run_data(k, m, events, i + 1),
        i + 1 < 11 + k + m ==> requests(actions[i], run_phase(k, m, i + 1), p),
        i + 1 == 11 + k + m ==> finishes(actions[i], run_data(k, m, events, i), p),
{
    let ph = run_phase(k, m, i);
    if 9 + k <= i < 9 + k + m {
        let r = reply_of(events[i]);
        assert(replies_between(events, 9 + k, i + 1).drop_last() =~= replies_between(
            events,
            9 + k,
            i,
        ));
        assert(replies_between(events, 9 + k, i + 1).last() == r);
        let next = replies_between(events, 9 + k, i + 1);
        assert(concat_blocks(next) == concat_blocks(next.drop_last()) + block_data(next.last()));
        if i == 9 + k {
            assert(replies_between(events, 9 + k, i) =~= Seq::<Seq<u8>>::empty());
            assert(concat_blocks(replies_between(events, 9 + k, i)) =~= Seq::<u8>::empty());
        }
        assert(run_data(k, m, events, i + 1) =~= run_data(k, m, events, i) + block_data(r));
    }
}

/// A whole scan, as the session runs it against a scanner that lets it go on
/// (`well_answered`): with `k` status polls and `m` image blocks, the session
/// goes through the documented steps in order (ModeShift with a blank jobID,
/// capability query, StartJob, ModeShift, StartSession, capability query,
/// ScanParam3, ScanStart3, `k` Status3 polls, dimensions, `m` ReadImage
/// requests, AbortSession, EndJob), requesting each step's bytes in turn, and
/// finishes with the blocks' data in order, whether the AbortSession and EndJob
/// exchanges succeed or fail.
pub proof fn lemma_scan_run(
    p: ScanParams,
    k: int,
    m: int,
    events: Seq<ScanEvent>,
    phases: Seq<ScanPhase>,
    datas: Seq<Seq<u8>>,
    actions: Seq<ScanAction>,
)
    requires
        k >= 1,
        m >= 1,
        events.len() == 11 + k + m,
        phases.len() == events.len() + 1,
        datas.len() == events.len() + 1,
        actions.len() == events.len(),
        phases[0] == ScanPhase::ModeShiftBlank,
        datas[0] == Seq::<u8>::empty(),
        forall|i: int|
            0 <= i < events.len() ==> #[trigger] run_step(p, events, phases, datas, actions, i),
        forall|i: int| 0 <= i < events.len() ==> #[trigger] well_answered(k, m, i, events[i]),
    ensures
        forall|i: int| 0 <= i <= events.len() ==> #[trigger] phases[i] == run_phase(k, m, i),
        forall|i: int|
            0 <= i < events.len() - 1 ==> #[trigger] requests(actions[i], run_phase(k, m, i + 1), p),
        finishes(
            actions[events.len() - 1],
            concat_blocks(replies_between(events, 9 + k, 9 + k + m)),
            p,
        ),
{
    lemma_run_prefix(p, k, m, events, phases, datas, actions, events.len() as int);
}

proof fn lemma_run_prefix(
    p: ScanParams,
    k: int,
    m: int,
    events: Seq<ScanEvent>,
    phases: Seq<ScanPhase>,
    datas: Seq<Seq<u8>>,
    actions: Seq<ScanAction>,
    n: int,
)
    requires
        k >= 1,
        m >= 1,
        0 <= n <= events.len(),
        events.len() == 11 + k + m,
        phases.len() == events.len() + 1,
        datas.len() == events.len() + 1,
        actions.len() == events.len(),
        phases[0] == ScanPhase::ModeShiftBlank,
        datas[0] == Seq::<u8>::empty(),
        forall|i: int|
            0 <= i < events.len() ==> #[trigger] run_step(p, events, phases, datas, actions, i),
        forall|i: int| 0 <= i < events.len() ==> #[trigger] well_answered(k, m, i, events[i]),
    ensures
        forall|i: int| 0 <= i <= n ==> #[trigger] phases[i] == run_phase(k, m, i),
        forall|i: int| 0 <= i <= n && i < events.len() ==> #[trigger] datas[i] == run_data(k, m, events, i),
        forall|i: int|
            0 <= i < n && i < events.len() - 1 ==> #[trigger] requests(actions[i], run_phase(k, m, i + 1), p),
        n == events.len() ==> finishes(
            actions[events.len() - 1],
            concat_blocks(replies_between(events, 9 + k, 9 + k + m)),
            p,
        ),
    decreases n,
{
    if n == 0 {
        assert(run_data(k, m, events, 0) == Seq::<u8>::empty());
    } else {
        lemma_run_prefix(p, k, m, events, phases, datas, actions, n - 1);
        let i = n - 1;
        assert(run_step(p, events, phases, datas, actions, i));
        assert(well_answered(k, m, i, events[i]));
        assert(phases[i] == run_phase(k, m, i));
        assert(datas[i] == run_data(k, m, events, i));
        lemma_run_step(p, k, m, events, phases, datas, actions, i);
    }
}

} // verus!
