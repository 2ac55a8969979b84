//! eSCL scan settings: reading the ScanSettings document a client posts,
//! and converting its region to scanner pixels.
use vstd::prelude::*;
use vstd::string::*;

use crate::scanner::commands::{ColorMode, ScanParams};
use crate::text::{chars_of, digit_scan, parse_uint, parse_uint_chars, text_eq};

verus! {

/// Parsed eSCL scan settings from the POST body.
#[derive(Debug)]
pub struct EsclScanSettings {
    pub x_resolution: u16,
    pub y_resolution: u16,
    pub color_mode: ColorMode,
    pub x_offset: u32,
    pub y_offset: u32,
    pub width: u32,
    pub height: u32,
}

/// The settings used where the document gives none: 300 DPI color, a full
/// 2550 x 3508 (in 1/300 inch) region.
pub open spec fn default_settings() -> EsclScanSettings {
    EsclScanSettings {
        x_resolution: 300,
        y_resolution: 300,
        color_mode: ColorMode::Color,
        x_offset: 0,
        y_offset: 0,
        width: 2550,
        height: 3508,
    }
}

impl Default for EsclScanSettings {
    fn default() -> (s: Self)
        ensures
            s == default_settings(),
    {
        Self {
            x_resolution: 300,
            y_resolution: 300,
            color_mode: ColorMode::Color,
            x_offset: 0,
            y_offset: 0,
            width: 2550,
            height: 3508,
        }
    }
}

/// A length in 1/300 inch converted to pixels at `dpi`, rounded down and
/// saturated at `u32::MAX`.
pub open spec fn scale_to_dpi(v: u32, dpi: u16) -> u32 {
    let p = v * dpi / 300;
    if p > u32::MAX {
        u32::MAX
    } else {
        p as u32
    }
}

/// Scaling gives the whole number of pixels in a length: `p * 300 <= v * dpi <
/// (p + 1) * 300`, unless that number is past `u32::MAX`, which saturates.
pub proof fn lemma_scale_floor(v: u32, dpi: u16)
    ensures
        v * dpi < (u32::MAX as int + 1) * 300 ==> scale_to_dpi(v, dpi) * 300 <= v * dpi < (
        scale_to_dpi(v, dpi) + 1) * 300,
        v * dpi >= (u32::MAX as int + 1) * 300 ==> scale_to_dpi(v, dpi) == u32::MAX,
{
    let q = v * dpi / 300;
    assert(q * 300 <= v * dpi < (q + 1) * 300) by (nonlinear_arith)
        requires
            q == v * dpi / 300,
            v * dpi >= 0,
    ;
}

fn scale(v: u32, dpi: u16) -> (r: u32)
    ensures
        r == scale_to_dpi(v, dpi),
{
    assert(v as int * dpi as int <= 0xFFFF_FFFF * 0xFFFF) by (nonlinear_arith)
        requires
            v <= 0xFFFF_FFFFu32,
            dpi <= 0xFFFFu16,
    ;
    let p: u64 = v as u64 * dpi as u64 / 300;
    if p > u32::MAX as u64 {
        u32::MAX
    } else {
        p as u32
    }
}

impl EsclScanSettings {
    /// Convert eSCL settings to CHMP ScanParams.
    /// eSCL dimensions are in 1/300-inch units; ScanParams needs pixels at the target DPI.
    /// The conversion is exact integer arithmetic: a length that is a whole
    /// number of pixels gives that number (100 at 87 DPI gives 29), with no
    /// binary floating-point rounding error taking it one below.
    pub fn to_scan_params(&self) -> (p: ScanParams)
        ensures
            p.dpi == self.x_resolution,
            p.color == self.color_mode,
            p.x == scale_to_dpi(self.x_offset, self.x_resolution),
            p.y == scale_to_dpi(self.y_offset, self.x_resolution),
            p.width == scale_to_dpi(self.width, self.x_resolution),
            p.height == scale_to_dpi(self.height, self.x_resolution),
    {
        let width = scale(self.width, self.x_resolution);
        let height = scale(self.height, self.x_resolution);
        let x = scale(self.x_offset, self.x_resolution);
        let y = scale(self.y_offset, self.x_resolution);
        ScanParams { dpi: self.x_resolution, color: self.color_mode, x, y, width, height }
    }
}

/// An event of an XML reader (text trimmed), as far as the settings need it.
pub enum XmlEvent {
    /// A start tag, by its local name.
    Start(String),
    /// Character data, unescaped.
    Text(String),
    /// Anything else.
    Other,
}

/// What quick-xml's reader reports for a document, up to its end or first error.
pub uninterp spec fn xml_event_stream(xml: Seq<u8>) -> Seq<XmlEvent>;

/// `quick_xml::Reader::read_event_into`, run over the whole document with
/// text trimming on: each start tag by its local name (lossily decoded),
/// each text event unescaped (empty when unescaping fails), every other event
/// as `Other`, stopping at the end or at the first error. Claimed: the events
/// are a function of the document's bytes alone.
#[verifier::external_body]
fn xml_events(xml: &[u8]) -> (events: Vec<XmlEvent>)
    ensures
        events@ == xml_event_stream(xml@),
{
    let mut reader = quick_xml::Reader::from_reader(xml);
    reader.config_mut().trim_text(true);
    let (mut events, mut buf) = (Vec::new(), Vec::new());
    loop {
        match reader.read_event_into(&mut buf) {
            Ok(quick_xml::events::Event::Start(e)) => events.push(XmlEvent::Start(String::from_utf8_lossy(e.local_name().as_ref()).to_string())),
            Ok(quick_xml::events::Event::Text(e)) => events.push(XmlEvent::Text(e.unescape().unwrap_or_default().to_string())),
            Ok(quick_xml::events::Event::Eof) | Err(_) => return events,
            Ok(_) => events.push(XmlEvent::Other),
        }
        buf.clear();
    }
}

/// The effect of text `text` inside the element `tag` on the settings.
pub open spec fn apply_text(s: EsclScanSettings, tag: Seq<char>, text: Seq<char>) -> EsclScanSettings {
    if tag == "XResolution"@ {
        match parse_uint(text, 10, 0xFFFF) {
            Ok(v) => EsclScanSettings { x_resolution: v as u16, ..s },
            Err(_) => s,
        }
    } else if tag == "YResolution"@ {
        match parse_uint(text, 10, 0xFFFF) {
            Ok(v) => EsclScanSettings { y_resolution: v as u16, ..s },
            Err(_) => s,
        }
    } else if tag == "ColorMode"@ {
        EsclScanSettings {
            color_mode: if text == "Grayscale8"@ {
                ColorMode::Grayscale
            } else {
                ColorMode::Color
            },
            ..s
        }
    } else if tag == "XOffset"@ {
        match parse_uint(text, 10, 0xFFFF_FFFF) {
            Ok(v) => EsclScanSettings { x_offset: v as u32, ..s },
            Err(_) => s,
        }
    } else if tag == "YOffset"@ {
        match parse_uint(text, 10, 0xFFFF_FFFF) {
            Ok(v) => EsclScanSettings { y_offset: v as u32, ..s },
            Err(_) => s,
        }
    } else if tag == "Width"@ {
        match parse_uint(text, 10, 0xFFFF_FFFF) {
            Ok(v) => EsclScanSettings { width: v as u32, ..s },
            Err(_) => s,
        }
    } else if tag == "Height"@ {
        match parse_uint(text, 10, 0xFFFF_FFFF) {
            Ok(v) => EsclScanSettings { height: v as u32, ..s },
            Err(_) => s,
        }
    } else {
        s
    }
}

/// The innermost start tag seen and the settings, after the events `events`.
pub open spec fn settings_state(events: Seq<XmlEvent>) -> (Seq<char>, EsclScanSettings)
    decreases events.len(),
{
    if events.len() == 0 {
        (seq![], default_settings())
    } else {
        let (tag, s) = settings_state(events.drop_last());
        match events.last() {
            XmlEvent::Start(name) => (name@, s),
            XmlEvent::Text(text) => (tag, apply_text(s, tag, text@)),
            XmlEvent::Other => (tag, s),
        }
    }
}

fn parse_number(text: &str, max: u64) -> (r: Option<u64>)
    ensures
        match parse_uint(text@, 10, max as nat) {
            Ok(v) => r == Some(v as u64),
            Err(_) => r is None,
        },
{
    let cs = chars_of(text);
    assert(cs@.subrange(0, cs@.len() as int) =~= text@);
    match parse_uint_chars(cs.as_slice(), 0, cs.len(), 10, max) {
        Ok(v) => Some(v),
        Err(_) => None,
    }
}

fn apply_text_exec(s: &mut EsclScanSettings, tag: &str, text: &str)
    ensures
        *final(s) == apply_text(*old(s), tag@, text@),
{
    if text_eq(tag, "XResolution") {
        if let Some(v) = parse_number(text, 0xFFFF) {
            s.x_resolution = v as u16;
        }
    } else if text_eq(tag, "YResolution") {
        if let Some(v) = parse_number(text, 0xFFFF) {
            s.y_resolution = v as u16;
        }
    } else if text_eq(tag, "ColorMode") {
        s.color_mode = if text_eq(text, "Grayscale8") {
            ColorMode::Grayscale
        } else {
            ColorMode::Color
        };
    } else if text_eq(tag, "XOffset") {
        if let Some(v) = parse_number(text, 0xFFFF_FFFF) {
            s.x_offset = v as u32;
        }
    } else if text_eq(tag, "YOffset") {
        if let Some(v) = parse_number(text, 0xFFFF_FFFF) {
            s.y_offset = v as u32;
        }
    } else if text_eq(tag, "Width") {
        if let Some(v) = parse_number(text, 0xFFFF_FFFF) {
            s.width = v as u32;
        }
    } else if text_eq(tag, "Height") {
        if let Some(v) = parse_number(text, 0xFFFF_FFFF) {
            s.height = v as u32;
        }
    }
}

/// The settings that a sequence of reader events describes: the text of
/// each known element overrides the default (numbers only where they parse).
pub fn settings_from_events(events: &Vec<XmlEvent>) -> (s: EsclScanSettings)
    ensures
        s == settings_state(events@).1,
{
    let mut settings = EsclScanSettings::default();
    let mut current_tag = String::new();
    let mut i: usize = 0;
    while i < events.len()
        invariant
            i <= events@.len(),
            settings_state(events@.subrange(0, i as int)) == (current_tag@, settings),
        decreases events.len() - i,
    {
        assert(events@.subrange(0, i + 1).drop_last() =~= events@.subrange(0, i as int));
        match &events[i] {
            XmlEvent::Start(name) => {
                current_tag = name.clone();
            },
            XmlEvent::Text(text) => {
                apply_text_exec(&mut settings, current_tag.as_str(), text.as_str());
            },
            XmlEvent::Other => {},
        }
        i = i + 1;
    }
    assert(events@.subrange(0, events@.len() as int) =~= events@);
    settings
}

/// Parse eSCL ScanSettings XML from a POST body.
pub fn parse_scan_settings(xml: &[u8]) -> (s: EsclScanSettings)
    ensures
        s == settings_state(xml_event_stream(xml@)).1,
{
    let events = xml_events(xml);
    settings_from_events(&events)
}


/// A start tag, whatever its name, becomes the element that following text
/// stands in, and changes no setting.
pub proof fn lemma_start_sets_tag(events: Seq<XmlEvent>, name: String)
    ensures
        settings_state(events.push(XmlEvent::Start(name))).0 == name@,
        settings_state(events.push(XmlEvent::Start(name))).1 == settings_state(events).1,
{
    assert(events.push(XmlEvent::Start(name)).drop_last() =~= events);
}

/// Text right after a start tag sets the colour mode only when that element is
/// `ColorMode` (grayscale exactly for `Grayscale8`); text in any other element,
/// such as `DocumentFormat`, leaves it alone.
pub proof fn lemma_text_in_element_color(events: Seq<XmlEvent>, name: String, text: String)
    ensures
        settings_state(events.push(XmlEvent::Start(name)).push(XmlEvent::Text(text))).1.color_mode
            == if name@ == "ColorMode"@ {
            if text@ == "Grayscale8"@ {
                ColorMode::Grayscale
            } else {
                ColorMode::Color
            }
        } else {
            settings_state(events).1.color_mode
        },
{
    let e1 = events.push(XmlEvent::Start(name));
    let e2 = e1.push(XmlEvent::Text(text));
    lemma_start_sets_tag(events, name);
    assert(e2.drop_last() =~= e1);
    lemma_tags_distinct();
}

/// Text right after a start tag that names no setting changes no setting.
pub proof fn lemma_text_in_other_element(events: Seq<XmlEvent>, name: String, text: String)
    requires
        name@ != "XResolution"@,
        name@ != "YResolution"@,
        name@ != "ColorMode"@,
        name@ != "XOffset"@,
        name@ != "YOffset"@,
        name@ != "Width"@,
        name@ != "Height"@,
    ensures
        settings_state(events.push(XmlEvent::Start(name)).push(XmlEvent::Text(text))).1
            == settings_state(events).1,
{
    let e1 = events.push(XmlEvent::Start(name));
    let e2 = e1.push(XmlEvent::Text(text));
    lemma_start_sets_tag(events, name);
    assert(e2.drop_last() =~= e1);
}

/// Whether `tag` names an element whose text is a number.
pub open spec fn is_numeric_tag(tag: Seq<char>) -> bool {
    tag == "XResolution"@ || tag == "YResolution"@ || tag == "XOffset"@ || tag == "YOffset"@
        || tag == "Width"@ || tag == "Height"@
}

/// The largest number the element `tag` takes: that of `u16` for the
/// resolutions, of `u32` for the region.
pub open spec fn tag_max(tag: Seq<char>) -> nat {
    if tag == "XResolution"@ || tag == "YResolution"@ {
        0xFFFF
    } else {
        0xFFFF_FFFF
    }
}

/// The field of `s` that the numeric element `tag` sets.
pub open spec fn numeric_field(s: EsclScanSettings, tag: Seq<char>) -> nat {
    if tag == "XResolution"@ {
        s.x_resolution as nat
    } else if tag == "YResolution"@ {
        s.y_resolution as nat
    } else if tag == "XOffset"@ {
        s.x_offset as nat
    } else if tag == "YOffset"@ {
        s.y_offset as nat
    } else if tag == "Width"@ {
        s.width as nat
    } else {
        s.height as nat
    }
}

/// The element in which event `i` of `events` stands.
pub open spec fn tag_before(events: Seq<XmlEvent>, i: int) -> Seq<char> {
    settings_state(events.subrange(0, i)).0
}

/// The last number that a text of the element `tag` gives among `events`
/// (texts that are no number of its range are passed over).
pub open spec fn last_number(events: Seq<XmlEvent>, tag: Seq<char>) -> Option<nat>
    decreases events.len(),
{
    if events.len() == 0 {
        None
    } else {
        match events.last() {
            XmlEvent::Text(t) => if settings_state(events.drop_last()).0 == tag {
                match parse_uint(t@, 10, tag_max(tag)) {
                    Ok(v) => Some(v),
                    Err(_) => last_number(events.drop_last(), tag),
                }
            } else {
                last_number(events.drop_last(), tag)
            },
            _ => last_number(events.drop_last(), tag),
        }
    }
}

/// The last text of a `ColorMode` element among `events`.
pub open spec fn last_color_text(events: Seq<XmlEvent>) -> Option<Seq<char>>
    decreases events.len(),
{
    if events.len() == 0 {
        None
    } else {
        match events.last() {
            XmlEvent::Text(t) => if settings_state(events.drop_last()).0 == "ColorMode"@ {
                Some(t@)
            } else {
                last_color_text(events.drop_last())
            },
            _ => last_color_text(events.drop_last()),
        }
    }
}

proof fn lemma_digit_scan_bound(s: Seq<char>, radix: nat, max: nat)
    ensures
        digit_scan(s, radix, max) matches Ok(v) ==> v <= max || s.len() == 0,
    decreases s.len(),
{
    if s.len() > 0 {
        lemma_digit_scan_bound(s.drop_last(), radix, max);
    }
}

proof fn lemma_parse_uint_bound(s: Seq<char>, max: nat)
    ensures
        parse_uint(s, 10, max) matches Ok(v) ==> v <= max,
{
    lemma_digit_scan_bound(s, 10, max);
    if s.len() > 0 {
        lemma_digit_scan_bound(s.drop_first(), 10, max);
        if s.drop_first().len() == 0 {
            assert(digit_scan(s.drop_first(), 10, max) == Ok::<nat, crate::text::IntErrorKind>(0));
        }
    }
}

/// The names of the settings elements are pairwise different.
proof fn lemma_tags_distinct()
    ensures
        "XResolution"@ != "YResolution"@,
        "XResolution"@ != "ColorMode"@,
        "XResolution"@ != "XOffset"@,
        "XResolution"@ != "YOffset"@,
        "XResolution"@ != "Width"@,
        "XResolution"@ != "Height"@,
        "YResolution"@ != "ColorMode"@,
        "YResolution"@ != "XOffset"@,
        "YResolution"@ != "YOffset"@,
        "YResolution"@ != "Width"@,
        "YResolution"@ != "Height"@,
        "ColorMode"@ != "XOffset"@,
        "ColorMode"@ != "YOffset"@,
        "ColorMode"@ != "Width"@,
        "ColorMode"@ != "Height"@,
        "XOffset"@ != "YOffset"@,
        "XOffset"@ != "Width"@,
        "XOffset"@ != "Height"@,
        "YOffset"@ != "Width"@,
        "YOffset"@ != "Height"@,
        "Width"@ != "Height"@,
{
    reveal_strlit("XResolution");
    reveal_strlit("YResolution");
    reveal_strlit("ColorMode");
    reveal_strlit("XOffset");
    reveal_strlit("YOffset");
    reveal_strlit("Width");
    reveal_strlit("Height");
    assert("XResolution"@[0] != "YResolution"@[0]);
    assert("XResolution"@.len() != "ColorMode"@.len());
    assert("XResolution"@.len() != "XOffset"@.len());
    assert("XResolution"@.len() != "YOffset"@.len());
    assert("XResolution"@.len() != "Width"@.len());
    assert("XResolution"@.len() != "Height"@.len());
    assert("YResolution"@.len() != "ColorMode"@.len());
    assert("YResolution"@.len() != "XOffset"@.len());
    assert("YResolution"@.len() != "YOffset"@.len());
    assert("YResolution"@.len() != "Width"@.len());
    assert("YResolution"@.len() != "Height"@.len());
    assert("ColorMode"@.len() != "XOffset"@.len());
    assert("ColorMode"@.len() != "YOffset"@.len());
    assert("ColorMode"@.len() != "Width"@.len());
    assert("ColorMode"@.len() != "Height"@.len());
    assert("XOffset"@[0] != "YOffset"@[0]);
    assert("XOffset"@.len() != "Width"@.len());
    assert("XOffset"@.len() != "Height"@.len());
    assert("YOffset"@.len() != "Width"@.len());
    assert("YOffset"@.len() != "Height"@.len());
    assert("Width"@.len() != "Height"@.len());
}

/// In the settings that reader events describe, each numeric field holds the
/// last number that a text of its element gives, and keeps its default where
/// no such text is a number of its range (other elements leave it alone).
pub proof fn lemma_numeric_field(events: Seq<XmlEvent>, tag: Seq<char>)
    requires
        is_numeric_tag(tag),
    ensures
        numeric_field(settings_state(events).1, tag) == match last_number(events, tag) {
            Some(v) => v,
            None => numeric_field(default_settings(), tag),
        },
    decreases events.len(),
{
    lemma_tags_distinct();
    if events.len() > 0 {
        lemma_numeric_field(events.drop_last(), tag);
        let (cur, s) = settings_state(events.drop_last());
        match events.last() {
            XmlEvent::Text(t) => {
                lemma_parse_uint_bound(t@, tag_max(cur));
                let s2 = apply_text(s, cur, t@);
                assert(settings_state(events).1 == s2);
                if cur == tag {
                    match parse_uint(t@, 10, tag_max(tag)) {
                        Ok(v) => assert(numeric_field(s2, tag) == v),
                        Err(_) => assert(numeric_field(s2, tag) == numeric_field(s, tag)),
                    }
                } else {
                    assert(numeric_field(s2, tag) == numeric_field(s, tag));
                }
            },
            XmlEvent::Start(name) => assert(settings_state(events).1 == s),
            XmlEvent::Other => assert(settings_state(events).1 == s),
        }
    } else {
        assert(settings_state(events).1 == default_settings());
    }
}

/// Where no text of the numeric element `tag` is a number of its range (for
/// instance `abc`, `-5`, `1.5`, or `70000` for a resolution), its field keeps
/// its default.
pub proof fn lemma_unparsed_keeps_default(events: Seq<XmlEvent>, tag: Seq<char>)
    requires
        is_numeric_tag(tag),
        forall|i: int|
            0 <= i < events.len() && tag_before(events, i) == tag ==> (#[trigger] events[i]
                matches XmlEvent::Text(t) ==> parse_uint(t@, 10, tag_max(tag)) is Err),
    ensures
        numeric_field(settings_state(events).1, tag) == numeric_field(default_settings(), tag),
{
    lemma_no_number(events, tag);
    lemma_numeric_field(events, tag);
}

proof fn lemma_no_number(events: Seq<XmlEvent>, tag: Seq<char>)
    requires
        forall|i: int|
            0 <= i < events.len() && tag_before(events, i) == tag ==> (#[trigger] events[i]
                matches XmlEvent::Text(t) ==> parse_uint(t@, 10, tag_max(tag)) is Err),
    ensures
        last_number(events, tag) is None,
    decreases events.len(),
{
    if events.len() > 0 {
        let e = events.drop_last();
        assert forall|i: int|
            0 <= i < e.len() && tag_before(e, i) == tag implies (#[trigger] e[i]
                matches XmlEvent::Text(t) ==> parse_uint(t@, 10, tag_max(tag)) is Err) by {
            assert(e.subrange(0, i) =~= events.subrange(0, i));
            assert(e[i] == events[i]);
        }
        lemma_no_number(e, tag);
        let last = events.len() - 1;
        assert(events.subrange(0, last) =~= e);
        assert(events[last] == events.last());
    }
}

/// The colour mode is grayscale exactly where the last text of a `ColorMode`
/// element is `Grayscale8` (case-sensitive), and colour otherwise, also where
/// there is no such element.
pub proof fn lemma_color_mode(events: Seq<XmlEvent>)
    ensures
        settings_state(events).1.color_mode == match last_color_text(events) {
            Some(t) => if t == "Grayscale8"@ {
                ColorMode::Grayscale
            } else {
                ColorMode::Color
            },
            None => ColorMode::Color,
        },
    decreases events.len(),
{
    if events.len() > 0 {
        lemma_color_mode(events.drop_last());
        let (cur, s) = settings_state(events.drop_last());
        assert(settings_state(events) == match events.last() {
            XmlEvent::Start(name) => (name@, s),
            XmlEvent::Text(text) => (cur, apply_text(s, cur, text@)),
            XmlEvent::Other => (cur, s),
        });
        match events.last() {
            XmlEvent::Text(t) => {
                lemma_tags_distinct();
                assert(apply_text(s, cur, t@).color_mode == if cur == "ColorMode"@ {
                    if t@ == "Grayscale8"@ { ColorMode::Grayscale } else { ColorMode::Color }
                } else {
                    s.color_mode
                });
            },
            _ => {},
        }
    } else {
        assert(settings_state(events).1 == default_settings());
    }
}

/// At 300 DPI a length in 1/300 inch is already in pixels; at 600 DPI it
/// doubles, saturating at `u32::MAX`.
pub proof fn lemma_scale_native_and_double(v: u32)
    ensures
        scale_to_dpi(v, 300) == v,
        scale_to_dpi(v, 600) == if 2 * v > u32::MAX {
            u32::MAX
        } else {
            (2 * v) as u32
        },
{
    assert(v * 300 / 300 == v) by (nonlinear_arith);
    assert(v * 600 / 300 == 2 * v) by (nonlinear_arith);
}

} // verus!
