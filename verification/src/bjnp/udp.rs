//! BJNP discovery and identity: the probes sent over UDP and the decoding
//! of the replies.
use vstd::prelude::*;
use vstd::string::*;

use crate::bjnp::packet::{parse_header, BjnpHeader, CommandCode, DeviceType, header_error_message};
use crate::error::PixmaError;
use crate::text::{chars_of, string_from_utf8, utf8_error_text};
use crate::wire::{from_be16, push_bytes, u16_from_be};

verus! {

/// The UDP port that BJNP scanners listen on.
pub const BJNP_SCAN_PORT: u16 = 8612;

/// The bytes of a discovery probe (scanner, Discover).
pub fn discover_probe() -> (b: [u8; 16])
    ensures
        b@ == BjnpHeader::new_spec(DeviceType::Scan, CommandCode::Discover).spec_bytes(),
{
    BjnpHeader::new(DeviceType::Scan, CommandCode::Discover).to_bytes()
}

/// The bytes of an identity probe (scanner, GetId).
pub fn identity_probe() -> (b: [u8; 16])
    ensures
        b@ == BjnpHeader::new_spec(DeviceType::Scan, CommandCode::GetId).spec_bytes(),
{
    BjnpHeader::new(DeviceType::Scan, CommandCode::GetId).to_bytes()
}

/// Whether `buf` opens with a response header for `command`.
pub open spec fn is_response_to(buf: Seq<u8>, command: CommandCode) -> bool {
    parse_header(buf) matches Some(h) && h.is_response && h.command == command
}

/// The MAC address in a discovery reply, if the reply has the expected layout.
pub open spec fn discover_mac(buf: Seq<u8>) -> Option<Seq<u8>> {
    if is_response_to(buf, CommandCode::Discover) && buf.len() >= 32 && buf[20] == 6 {
        Some(buf.subrange(22, 28))
    } else {
        None
    }
}

/// Parse a BJNP discovery response: the MAC address of the device that sent it.
pub fn parse_discover_response(buf: &[u8]) -> (res: Result<[u8; 6], PixmaError>)
    ensures
        parse_header(buf@) is None ==> (res matches Err(PixmaError::InvalidPacket(m)) && m@
            == header_error_message(buf@)),
        parse_header(buf@) is Some && !is_response_to(buf@, CommandCode::Discover) ==> (
        res matches Err(PixmaError::InvalidPacket(m)) && m@ == "not a discover response"@),
        is_response_to(buf@, CommandCode::Discover) && buf@.len() < 32 ==> (
        res matches Err(PixmaError::InvalidPacket(m)) && m@ == "discover payload too short"@),
        is_response_to(buf@, CommandCode::Discover) && buf@.len() >= 32 && buf@[20] != 6 ==> (
        res matches Err(PixmaError::InvalidPacket(m)) && m@ == "unexpected mac/addr layout"@),
        discover_mac(buf@) matches Some(mac) ==> (res matches Ok(r) && r@ == mac),
{
    let header = match BjnpHeader::from_bytes(buf) {
        Ok(h) => h,
        Err(e) => return Err(e),
    };
    if !header.is_response || header.command != CommandCode::Discover {
        return Err(PixmaError::InvalidPacket(String::from_str("not a discover response")));
    }
    if buf.len() - 16 < 16 {
        return Err(PixmaError::InvalidPacket(String::from_str("discover payload too short")));
    }
    let mac_len = buf[16 + 4] as usize;
    if mac_len != 6 || buf.len() - 16 < 6 + mac_len + 4 {
        return Err(PixmaError::InvalidPacket(String::from_str("unexpected mac/addr layout")));
    }
    let mac = [buf[22], buf[23], buf[24], buf[25], buf[26], buf[27]];
    assert(mac@ =~= buf@.subrange(22, 28));
    Ok(mac)
}

/// The identity bytes of a GetId reply: a 16-bit length after the header,
/// then that many bytes.
pub open spec fn identity_bytes(buf: Seq<u8>) -> Option<Seq<u8>> {
    if buf.len() < 18 {
        None
    } else {
        let n = from_be16(buf[16], buf[17]) as int;
        if 18 + n <= buf.len() {
            Some(buf.subrange(18, 18 + n))
        } else {
            None
        }
    }
}

/// Decodes the reply to an identity probe: the IEEE 1284 identity string.
pub fn parse_identity_response(buf: &[u8]) -> (res: Result<String, PixmaError>)
    ensures
        parse_header(buf@) is None ==> (res matches Err(PixmaError::InvalidPacket(m)) && m@
            == header_error_message(buf@)),
        parse_header(buf@) is Some && !is_response_to(buf@, CommandCode::GetId) ==> (
        res matches Err(PixmaError::InvalidPacket(m)) && m@ == "not a GetId response"@),
        is_response_to(buf@, CommandCode::GetId) && buf@.len() < 18 ==> (
        res matches Err(PixmaError::InvalidPacket(m)) && m@ == "identity payload too short"@),
        is_response_to(buf@, CommandCode::GetId) && buf@.len() >= 18 && identity_bytes(buf@) is None
            ==> (res matches Err(PixmaError::InvalidPacket(m)) && m@
            == "identity string length exceeds payload"@),
        is_response_to(buf@, CommandCode::GetId) && identity_bytes(buf@) is Some ==> ({
            let id = identity_bytes(buf@)->0;
            if vstd::utf8::valid_utf8(id) {
                res matches Ok(s) && s@ == vstd::utf8::decode_utf8(id)
            } else {
                res matches Err(PixmaError::InvalidPacket(m)) && m@ == "identity not UTF-8: "@
                    + utf8_error_text(id)
            }
        }),
{
    let header = match BjnpHeader::from_bytes(buf) {
        Ok(h) => h,
        Err(e) => return Err(e),
    };
    if !header.is_response || header.command != CommandCode::GetId {
        return Err(PixmaError::InvalidPacket(String::from_str("not a GetId response")));
    }
    if buf.len() - 16 < 2 {
        return Err(PixmaError::InvalidPacket(String::from_str("identity payload too short")));
    }
    let str_len = u16_from_be(buf[16], buf[17]) as usize;
    if str_len > buf.len() - 18 {
        return Err(
            PixmaError::InvalidPacket(String::from_str("identity string length exceeds payload")),
        );
    }
    let mut id: Vec<u8> = Vec::new();
    push_bytes(&mut id, vstd::slice::slice_subrange(buf, 18, 18 + str_len));
    match string_from_utf8(id) {
        Ok(s) => Ok(s),
        Err(e) => {
            let mut m = String::from_str("identity not UTF-8: ");
            m.append(e.as_str());
            Err(PixmaError::InvalidPacket(m))
        },
    }
}

/// Index of the first `;` at or after `i` (or the length).
pub open spec fn field_end(s: Seq<char>, i: int) -> int
    decreases s.len() - i,
{
    if i < 0 || i >= s.len() {
        s.len() as int
    } else if s[i] == ';' {
        i
    } else {
        field_end(s, i + 1)
    }
}

/// Whether the field `s[start..end]` starts with `MDL:`.
pub open spec fn is_model_field(s: Seq<char>, start: int, end: int) -> bool {
    end - start >= 4 && s[start] == 'M' && s[start + 1] == 'D' && s[start + 2] == 'L' && s[start
        + 3] == ':'
}

/// The value of the first `;`-separated field of `s`, from `start` on, that
/// starts with `MDL:`.
pub open spec fn model_from(s: Seq<char>, start: int) -> Option<Seq<char>>
    decreases s.len() - start,
{
    if start < 0 || start > s.len() {
        None
    } else {
        let end = field_end(s, start);
        if is_model_field(s, start, end) {
            Some(s.subrange(start + 4, end))
        } else if end >= s.len() || end < start {
            None
        } else {
            model_from(s, end + 1)
        }
    }
}

proof fn lemma_field_end(s: Seq<char>, i: int, j: int)
    requires
        0 <= i <= j <= s.len(),
        forall|k: int| i <= k < j ==> s[k] != ';',
        j == s.len() || s[j] == ';',
    ensures
        field_end(s, i) == j,
    decreases j - i,
{
    if i < j {
        lemma_field_end(s, i + 1, j);
    }
}

/// The `;`-separated fields of `s` from `start` on, as `str::split(';')`
/// gives them (an empty field where two separators meet or one ends `s`).
pub open spec fn fields_from(s: Seq<char>, start: int) -> Seq<Seq<char>>
    decreases s.len() - start,
{
    if start < 0 || start > s.len() {
        seq![]
    } else {
        let end = field_end(s, start);
        if end >= s.len() || end < start {
            seq![s.subrange(start, s.len() as int)]
        } else {
            seq![s.subrange(start, end)] + fields_from(s, end + 1)
        }
    }
}

/// The fields of `s` split at each `;`.
pub open spec fn split_fields(s: Seq<char>) -> Seq<Seq<char>> {
    fields_from(s, 0)
}

/// Whether a field starts with `MDL:` (case-sensitive).
pub open spec fn starts_with_mdl(f: Seq<char>) -> bool {
    f.len() >= 4 && f[0] == 'M' && f[1] == 'D' && f[2] == 'L' && f[3] == ':'
}

proof fn lemma_field_end_bounds(s: Seq<char>, i: int)
    requires
        0 <= i <= s.len(),
    ensures
        i <= field_end(s, i) <= s.len(),
        forall|k: int| i <= k < field_end(s, i) ==> s[k] != ';',
        field_end(s, i) < s.len() ==> s[field_end(s, i)] == ';',
    decreases s.len() - i,
{
    if i < s.len() && s[i] != ';' {
        lemma_field_end_bounds(s, i + 1);
    }
}

proof fn lemma_model_from_fields(s: Seq<char>, start: int)
    requires
        0 <= start <= s.len(),
    ensures
        ({
            let f = fields_from(s, start);
            &&& f.len() >= 1
            &&& forall|i: int, k: int| 0 <= i < f.len() && 0 <= k < f[i].len() ==> #[trigger] f[i][k] != ';'
            &&& model_from(s, start) is None <==> forall|i: int| 0 <= i < f.len() ==> !starts_with_mdl(#[trigger] f[i])
            &&& model_from(s, start) matches Some(m) ==> exists|i: int|
                0 <= i < f.len() && starts_with_mdl(#[trigger] f[i]) && (forall|j: int| 0 <= j < i ==> !starts_with_mdl(#[trigger] f[j])) && m == f[i].subrange(4, f[i].len() as int)
        }),
    decreases s.len() - start,
{
    lemma_field_end_bounds(s, start);
    let end = field_end(s, start);
    let f = fields_from(s, start);
    let head = s.subrange(start, end);
    if end >= s.len() {
        assert(f =~= seq![head]);
        assert(is_model_field(s, start, end) == starts_with_mdl(head));
        if is_model_field(s, start, end) {
            assert(model_from(s, start) == Some(s.subrange(start + 4, end)));
            assert(s.subrange(start + 4, end) =~= head.subrange(4, head.len() as int));
            assert(starts_with_mdl(f[0]));
        } else {
            assert(model_from(s, start) is None);
            assert forall|i: int| 0 <= i < f.len() implies !starts_with_mdl(#[trigger] f[i]) by {
                assert(f[i] == head);
            }
        }
        assert forall|i: int, k: int| 0 <= i < f.len() && 0 <= k < f[i].len() implies #[trigger] f[i][k] != ';' by {
            assert(f[i] == head);
            assert(head[k] == s[start + k]);
        }
    } else {
        let rest = fields_from(s, end + 1);
        lemma_model_from_fields(s, end + 1);
        assert(f =~= seq![head] + rest);
        assert(f[0] == head);
        assert forall|i: int| 1 <= i < f.len() implies #[trigger] f[i] == rest[i - 1] by {}
        assert(is_model_field(s, start, end) == starts_with_mdl(head));
        if is_model_field(s, start, end) {
            assert(s.subrange(start + 4, end) =~= head.subrange(4, head.len() as int));
            assert(starts_with_mdl(f[0]));
        } else {
            assert(model_from(s, start) == model_from(s, end + 1));
            if model_from(s, start) is None {
                assert forall|i: int| 0 <= i < f.len() implies !starts_with_mdl(#[trigger] f[i]) by {
                    if i > 0 {
                        assert(f[i] == rest[i - 1]);
                    }
                }
            } else {
                let m = model_from(s, start)->0;
                let i0 = choose|i: int|
                    0 <= i < rest.len() && starts_with_mdl(#[trigger] rest[i]) && (forall|j: int| 0 <= j < i ==> !starts_with_mdl(#[trigger] rest[j])) && m == rest[i].subrange(4, rest[i].len() as int);
                assert(f[i0 + 1] == rest[i0]);
                assert forall|j: int| 0 <= j < i0 + 1 implies !starts_with_mdl(#[trigger] f[j]) by {
                    if j > 0 {
                        assert(f[j] == rest[j - 1]);
                    }
                }
            }
        }
        assert forall|i: int, k: int| 0 <= i < f.len() && 0 <= k < f[i].len() implies #[trigger] f[i][k] != ';' by {
            if i > 0 {
                assert(f[i] == rest[i - 1]);
            } else {
                assert(head[k] == s[start + k]);
            }
        }
    }
}

/// The fields joined with `;` between each two.
pub open spec fn join_fields(fs: Seq<Seq<char>>) -> Seq<char>
    decreases fs.len(),
{
    if fs.len() == 0 {
        seq![]
    } else if fs.len() == 1 {
        fs[0]
    } else {
        fs[0] + seq![';'] + join_fields(fs.skip(1))
    }
}

proof fn lemma_fields_rejoin(s: Seq<char>, start: int)
    requires
        0 <= start <= s.len(),
    ensures
        join_fields(fields_from(s, start)) == s.subrange(start, s.len() as int),
    decreases s.len() - start,
{
    lemma_field_end_bounds(s, start);
    let end = field_end(s, start);
    let f = fields_from(s, start);
    if end < s.len() {
        let rest = fields_from(s, end + 1);
        lemma_fields_rejoin(s, end + 1);
        lemma_model_from_fields(s, end + 1);
        assert(f.skip(1) =~= rest);
        assert(s.subrange(start, s.len() as int) =~= s.subrange(start, end) + seq![';']
            + s.subrange(end + 1, s.len() as int));
    }
}

/// Splitting a text at each `;` and joining the fields with `;` gives the text
/// back, and no field holds a `;`: `split_fields` is the split.
pub proof fn lemma_split_fields_rejoin(s: Seq<char>)
    ensures
        join_fields(split_fields(s)) == s,
        forall|i: int, k: int|
            0 <= i < split_fields(s).len() && 0 <= k < split_fields(s)[i].len() ==> #[trigger] split_fields(s)[i][k] != ';',
{
    lemma_fields_rejoin(s, 0);
    lemma_model_from_fields(s, 0);
    assert(s.subrange(0, s.len() as int) =~= s);
}

/// The model that `parse_model` finds is the rest of the first field of the
/// identity, split at each `;`, that starts with `MDL:` (case-sensitive);
/// there is none exactly where no field starts so. No field, and so no model,
/// holds a `;`.
pub proof fn lemma_model_is_first_mdl_field(identity: Seq<char>)
    ensures
        ({
            let f = split_fields(identity);
            &&& forall|i: int, k: int| 0 <= i < f.len() && 0 <= k < f[i].len() ==> #[trigger] f[i][k] != ';'
            &&& model_from(identity, 0) is None <==> forall|i: int| 0 <= i < f.len() ==> !starts_with_mdl(#[trigger] f[i])
            &&& model_from(identity, 0) matches Some(m) ==> exists|i: int|
                0 <= i < f.len() && starts_with_mdl(#[trigger] f[i]) && (forall|j: int| 0 <= j < i ==> !starts_with_mdl(#[trigger] f[j])) && m == f[i].subrange(4, f[i].len() as int)
        }),
{
    lemma_model_from_fields(identity, 0);
}

fn field_is_model(s: &[char], start: usize, end: usize) -> (b: bool)
    requires
        start <= end <= s@.len(),
    ensures
        b == is_model_field(s@, start as int, end as int),
{
    end - start >= 4 && s[start] == 'M' && s[start + 1] == 'D' && s[start + 2] == 'L' && s[start
        + 3] == ':'
}

/// Parse the MDL field from an IEEE 1284 identity string.
pub fn parse_model(identity: &str) -> (model: Option<&str>)
    ensures
        model matches Some(m) ==> model_from(identity@, 0) == Some(m@),
        model is None ==> model_from(identity@, 0) is None,
{
    let cs = chars_of(identity);
    let n = cs.len();
    let mut start: usize = 0;
    let mut i: usize = 0;
    while i < n
        invariant
            n == cs@.len(),
            cs@ == identity@,
            start <= i <= n,
            model_from(cs@, 0) == model_from(cs@, start as int),
            forall|k: int| start <= k < i ==> cs@[k] != ';',
        decreases n - i,
    {
        if cs[i] == ';' {
            proof {
                lemma_field_end(cs@, start as int, i as int);
            }
            if field_is_model(cs.as_slice(), start, i) {
                return Some(identity.substring_char(start + 4, i));
            }
            start = i + 1;
        }
        i = i + 1;
    }
    proof {
        lemma_field_end(cs@, start as int, n as int);
    }
    if field_is_model(cs.as_slice(), start, n) {
        Some(identity.substring_char(start + 4, n))
    } else {
        None
    }
}

} // verus!
