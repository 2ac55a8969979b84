//! Discovery of Canon printers: which announced services are Canon
//! printers, what they are called, and the final list, ordered by address
//! with each address once.
use vstd::prelude::*;
use vstd::string::*;

use crate::text::{
    append_decimal, chars_of, contains_chars, contains_text, decimal, lowercase_text, text_eq,
    to_lowercase,
};

verus! {

/// A Canon printer found on the network.
#[derive(Debug, Clone)]
pub struct Printer {
    pub model: String,
    pub ip: [u8; 4],
    pub mac: Option<[u8; 6]>,
    pub identity: Option<String>,
    pub scan_capable: bool,
}

/// Whether an announced service name names a Canon device: its lower-cased
/// text contains `canon`.
pub fn is_canon_service(fullname: &str) -> (b: bool)
    ensures
        b == contains_text(lowercase_text(fullname@), "canon"@),
{
    let lower = to_lowercase(fullname);
    let cs = chars_of(lower.as_str());
    let pat = chars_of("canon");
    contains_chars(cs.as_slice(), pat.as_slice())
}

/// The model of a printer from its `ty` or, failing that, `usb_MDL` record.
pub fn printer_model(ty: Option<&str>, usb_mdl: Option<&str>) -> (m: String)
    ensures
        ty matches Some(t) ==> m@ == t@,
        ty is None && usb_mdl is Some ==> m@ == usb_mdl->0@,
        ty is None && usb_mdl is None ==> m@ == "Unknown Canon"@,
{
    match ty {
        Some(t) => String::from_str(t),
        None => match usb_mdl {
            Some(u) => String::from_str(u),
            None => String::from_str("Unknown Canon"),
        },
    }
}

/// Whether the `Scan` record announces scanning: it is `T`.
pub fn advertises_scan(scan: Option<&str>) -> (b: bool)
    ensures
        b == (scan matches Some(v) && v@ == "T"@),
{
    match scan {
        Some(v) => text_eq(v, "T"),
        None => false,
    }
}

/// The model text that the `ty` and `usb_MDL` records give: `ty`, else
/// `usb_MDL`, else `Unknown Canon`.
pub open spec fn model_text(ty: Option<Seq<char>>, usb_mdl: Option<Seq<char>>) -> Seq<char> {
    match ty {
        Some(t) => t,
        None => match usb_mdl {
            Some(u) => u,
            None => "Unknown Canon"@,
        },
    }
}

/// The text of an optional record.
pub open spec fn record_text(r: Option<&str>) -> Option<Seq<char>> {
    match r {
        Some(t) => Some(t@),
        None => None,
    }
}

/// The printer that a resolved service record describes: none unless its
/// name is a Canon one and it has an IPv4 address; else at its first IPv4
/// address (`ipv4` in the order the record gives them), named and marked from
/// its `ty`, `usb_MDL` and `Scan` records, with no MAC and no identity yet.
pub fn printer_from_record(
    fullname: &str,
    ipv4: &[[u8; 4]],
    ty: Option<&str>,
    usb_mdl: Option<&str>,
    scan: Option<&str>,
) -> (p: Option<Printer>)
    ensures
        !contains_text(lowercase_text(fullname@), "canon"@) ==> p is None,
        ipv4@.len() == 0 ==> p is None,
        contains_text(lowercase_text(fullname@), "canon"@) && ipv4@.len() > 0 ==> (p matches Some(
            pr,
        ) && pr.ip == ipv4@[0] && pr.model@ == model_text(record_text(ty), record_text(usb_mdl))
            && pr.scan_capable == (scan matches Some(v) && v@ == "T"@) && pr.mac is None
            && pr.identity is None),
{
    if !is_canon_service(fullname) || ipv4.len() == 0 {
        return None;
    }
    let model = printer_model(ty, usb_mdl);
    Some(
        Printer {
            model,
            ip: ipv4[0],
            mac: None,
            identity: None,
            scan_capable: advertises_scan(scan),
        },
    )
}


/// The dotted-decimal text of an IPv4 address.
pub open spec fn ip_text(ip: Seq<u8>) -> Seq<char> {
    decimal(ip[0] as nat) + "."@ + decimal(ip[1] as nat) + "."@ + decimal(ip[2] as nat) + "."@
        + decimal(ip[3] as nat)
}

/// The key printers are ordered and told apart by: their address as text.
pub open spec fn printer_key(p: Printer) -> Seq<char> {
    ip_text(p.ip@)
}

/// Lexicographic order of texts (a proper prefix comes first).
pub open spec fn text_less(a: Seq<char>, b: Seq<char>) -> bool
    decreases a.len(),
{
    if a.len() == 0 {
        b.len() > 0
    } else if b.len() == 0 {
        false
    } else if a[0] != b[0] {
        a[0] < b[0]
    } else {
        text_less(a.drop_first(), b.drop_first())
    }
}

/// No text is less than itself.
pub proof fn lemma_text_less_irreflexive(a: Seq<char>)
    ensures
        !text_less(a, a),
    decreases a.len(),
{
    if a.len() > 0 {
        lemma_text_less_irreflexive(a.drop_first());
    }
}

/// The order is transitive.
pub proof fn lemma_text_less_transitive(a: Seq<char>, b: Seq<char>, c: Seq<char>)
    requires
        text_less(a, b),
        text_less(b, c),
    ensures
        text_less(a, c),
    decreases a.len(),
{
    if a.len() > 0 && b.len() > 0 && c.len() > 0 && a[0] == b[0] && b[0] == c[0] {
        lemma_text_less_transitive(a.drop_first(), b.drop_first(), c.drop_first());
    }
}

/// Of two different texts, one is less than the other.
pub proof fn lemma_text_less_total(a: Seq<char>, b: Seq<char>)
    requires
        a != b,
    ensures
        text_less(a, b) || text_less(b, a),
    decreases a.len(),
{
    if a.len() > 0 && b.len() > 0 && a[0] == b[0] {
        if a.drop_first() == b.drop_first() {
            assert(a =~= seq![a[0]] + a.drop_first());
            assert(b =~= seq![b[0]] + b.drop_first());
        } else {
            lemma_text_less_total(a.drop_first(), b.drop_first());
        }
    } else if a.len() == 0 && b.len() == 0 {
        assert(a =~= b);
    } else if a.len() > 0 && b.len() > 0 {

    }
}

/// No two texts are each less than the other.
pub proof fn lemma_text_less_asymmetric(a: Seq<char>, b: Seq<char>)
    requires
        text_less(a, b),
    ensures
        !text_less(b, a),
    decreases a.len(),
{
    if a.len() > 0 && b.len() > 0 && a[0] == b[0] {
        lemma_text_less_asymmetric(a.drop_first(), b.drop_first());
    }
}

fn text_less_exec(a: &[char], b: &[char]) -> (r: bool)
    ensures
        r == text_less(a@, b@),
{
    let mut i: usize = 0;
    assert(a@.skip(0) =~= a@ && b@.skip(0) =~= b@);
    while i < a.len() && i < b.len() && a[i] == b[i]
        invariant
            i <= a@.len(),
            i <= b@.len(),
            text_less(a@, b@) == text_less(a@.skip(i as int), b@.skip(i as int)),
        decreases a.len() - i,
    {
        assert(a@.skip(i as int).drop_first() =~= a@.skip(i + 1));
        assert(b@.skip(i as int).drop_first() =~= b@.skip(i + 1));
        i = i + 1;
    }
    if i == a.len() {
        i < b.len()
    } else if i == b.len() {
        false
    } else {
        a[i] < b[i]
    }
}

fn ip_key(ip: &[u8; 4]) -> (k: Vec<char>)
    ensures
        k@ == ip_text(ip@),
{
    let mut s = String::new();
    append_decimal(&mut s, ip[0] as u64);
    s.append(".");
    append_decimal(&mut s, ip[1] as u64);
    s.append(".");
    append_decimal(&mut s, ip[2] as u64);
    s.append(".");
    append_decimal(&mut s, ip[3] as u64);
    chars_of(s.as_str())
}

/// Whether `ps[j]` is the first printer of `ps` with its key.
pub open spec fn is_first_of_key(ps: Seq<Printer>, j: int) -> bool {
    0 <= j < ps.len() && forall|k: int| 0 <= k < j ==> printer_key(ps[k]) != printer_key(ps[j])
}

/// Whether `p` is the first printer of `ps` with its key.
pub open spec fn first_of_key_in(p: Printer, ps: Seq<Printer>) -> bool {
    exists|j: int| is_first_of_key(ps, j) && p == #[trigger] ps[j]
}

/// Whether the keys of `ps` strictly increase.
pub open spec fn strictly_sorted(ps: Seq<Printer>) -> bool {
    forall|i: int, j: int|
        0 <= i < j < ps.len() ==> text_less(printer_key(#[trigger] ps[i]), printer_key(#[trigger] ps[j]))
}

/// The printers ordered by address text, each address once: its first
/// printer in `printers` (`sort_by_key` then `dedup_by_key`).
pub fn sort_and_dedup(printers: Vec<Printer>) -> (r: Vec<Printer>)
    ensures
        strictly_sorted(r@),
        forall|i: int| 0 <= i < r@.len() ==> #[trigger] first_of_key_in(r@[i], printers@),
        forall|j: int|
            is_first_of_key(printers@, j) ==> exists|i: int| 0 <= i < r@.len() && r@[i]
                == #[trigger] printers@[j],
{
    let ghost orig = printers@;
    let mut rest = printers;
    let mut out: Vec<Printer> = Vec::new();
    let mut keys: Vec<Vec<char>> = Vec::new();
    let ghost mut idx: Seq<int> = seq![];
    let ghost mut n: int = 0;
    while rest.len() > 0
        invariant
            0 <= n <= orig.len(),
            rest@ == orig.skip(n),
            keys@.len() == out@.len(),
            idx.len() == out@.len(),
            forall|i: int| 0 <= i < out@.len() ==> #[trigger] keys@[i]@ == printer_key(out@[i]),
            strictly_sorted(out@),
            forall|i: int|
                0 <= i < out@.len() ==> 0 <= #[trigger] idx[i] < n && is_first_of_key(orig, idx[i])
                    && out@[i] == orig[idx[i]],
            forall|j: int|
                0 <= j < n && is_first_of_key(orig, j) ==> exists|i: int| 0 <= i < out@.len()
                    && idx[i] == j,
            forall|k: int|
                0 <= k < n ==> exists|i: int| 0 <= i < out@.len() && printer_key(out@[i])
                    == printer_key(#[trigger] orig[k]),
        decreases rest.len(),
    {
        let p = rest.remove(0);
        assert(p == orig[n]);
        let key = ip_key(&p.ip);
        let mut pos: usize = 0;
        while pos < keys.len() && text_less_exec(keys[pos].as_slice(), key.as_slice())
            invariant
                pos <= keys@.len(),
                keys@.len() == out@.len(),
                forall|i: int| 0 <= i < out@.len() ==> #[trigger] keys@[i]@ == printer_key(out@[i]),
                forall|i: int| 0 <= i < pos ==> text_less(printer_key(#[trigger] out@[i]), key@),
            decreases keys.len() - pos,
        {
            pos = pos + 1;
        }
        let dup = pos < keys.len() && text_eq_chars(keys[pos].as_slice(), key.as_slice());
        if dup {
            proof {
                assert(!is_first_of_key(orig, n)) by {
                    let j = idx[pos as int];
                    assert(printer_key(orig[j]) == printer_key(orig[n]));
                }
                assert forall|k: int| 0 <= k < n + 1 implies exists|i: int| 0 <= i < out@.len()
                    && printer_key(out@[i]) == printer_key(#[trigger] orig[k]) by {
                    if k == n {
                        assert(printer_key(out@[pos as int]) == printer_key(orig[k]));
                    }
                }
            }
        } else {
            proof {
                assert forall|i: int| pos <= i < out@.len() implies text_less(
                    key@,
                    printer_key(#[trigger] out@[i]),
                ) by {
                    if pos < out@.len() {
                        if i > pos {
                            assert(text_less(printer_key(out@[pos as int]), printer_key(out@[i])));
                        }
                        if key@ != printer_key(out@[pos as int]) {
                            lemma_text_less_total(key@, printer_key(out@[pos as int]));
                        }
                        if i > pos {
                            lemma_text_less_transitive(
                                key@,
                                printer_key(out@[pos as int]),
                                printer_key(out@[i]),
                            );
                        }
                    }
                }
                assert(is_first_of_key(orig, n)) by {
                    assert forall|k: int| 0 <= k < n implies printer_key(orig[k]) != printer_key(
                        orig[n],
                    ) by {
                        let i = choose|i: int| 0 <= i < out@.len() && printer_key(out@[i])
                            == printer_key(orig[k]);
                        if printer_key(orig[k]) == printer_key(orig[n]) {
                            if i < pos {
                                lemma_text_less_irreflexive(key@);
                            } else {
                                lemma_text_less_irreflexive(key@);
                            }
                        }
                    }
                }
            }
            let ghost old_out = out@;
            let ghost old_idx = idx;
            keys.insert(pos, key);
            out.insert(pos, p);
            proof {
                idx = idx.insert(pos as int, n);
                assert forall|i: int, j: int|
                    0 <= i < j < out@.len() implies text_less(
                    printer_key(#[trigger] out@[i]),
                    printer_key(#[trigger] out@[j]),
                ) by {
                    if j < pos {
                        assert(out@[i] == old_out[i] && out@[j] == old_out[j]);
                    } else if j == pos {
                        assert(out@[i] == old_out[i]);
                    } else if i < pos {
                        assert(out@[i] == old_out[i] && out@[j] == old_out[j - 1]);
                        lemma_text_less_transitive(
                            printer_key(old_out[i]),
                            printer_key(orig[n]),
                            printer_key(old_out[j - 1]),
                        );
                    } else if i == pos {
                        assert(out@[j] == old_out[j - 1]);
                    } else {
                        assert(out@[i] == old_out[i - 1] && out@[j] == old_out[j - 1]);
                    }
                }
                assert forall|j: int|
                    0 <= j < n + 1 && is_first_of_key(orig, j) implies exists|i: int|
                    0 <= i < out@.len() && idx[i] == j by {
                    if j == n {
                        assert(idx[pos as int] == n);
                    } else {
                        let i0 = choose|i: int| 0 <= i < old_out.len() && old_idx[i] == j;
                        if i0 < pos {
                            assert(idx[i0] == j);
                        } else {
                            assert(idx[i0 + 1] == j);
                        }
                    }
                }
                assert forall|k: int| 0 <= k < n + 1 implies exists|i: int| 0 <= i < out@.len()
                    && printer_key(out@[i]) == printer_key(#[trigger] orig[k]) by {
                    if k == n {
                        assert(out@[pos as int] == orig[n]);
                    } else {
                        let i0 = choose|i: int| 0 <= i < old_out.len() && printer_key(old_out[i])
                            == printer_key(orig[k]);
                        if i0 < pos {
                            assert(out@[i0] == old_out[i0]);
                        } else {
                            assert(out@[i0 + 1] == old_out[i0]);
                        }
                    }
                }
            }
        }
        proof {
            n = n + 1;
            assert(rest@ =~= orig.skip(n));
        }
    }
    proof {
        assert forall|i: int| 0 <= i < out@.len() implies #[trigger] first_of_key_in(out@[i], orig) by {
            let j = idx[i];
            assert(is_first_of_key(orig, j) && out@[i] == orig[j]);
        }
        assert forall|j: int| is_first_of_key(orig, j) implies exists|i: int| 0 <= i < out@.len()
            && out@[i] == #[trigger] orig[j] by {
            let i = choose|i: int| 0 <= i < out@.len() && idx[i] == j;
            assert(out@[i] == orig[j]);
        }
    }
    out
}

fn text_eq_chars(a: &[char], b: &[char]) -> (eq: bool)
    ensures
        eq == (a@ == b@),
{
    if a.len() != b.len() {
        return false;
    }
    let mut i: usize = 0;
    while i < a.len()
        invariant
            a@.len() == b@.len(),
            i <= a@.len(),
            forall|k: int| 0 <= k < i ==> a@[k] == b@[k],
        decreases a.len() - i,
    {
        if a[i] != b[i] {
            assert(a@[i as int] != b@[i as int]);
            return false;
        }
        i = i + 1;
    }
    assert(a@ =~= b@);
    true
}

/// A resolved service record, as plain values: its name, its IPv4 addresses
/// in the order it gives them, its `ty`, `usb_MDL` and `Scan` TXT records, and
/// the identity the printer gave when probed (none if it was not probed or
/// did not answer).
#[derive(Debug, Clone)]
pub struct ServiceRecord {
    pub fullname: String,
    pub ipv4: Vec<[u8; 4]>,
    pub ty: Option<String>,
    pub usb_mdl: Option<String>,
    pub scan: Option<String>,
    pub identity: Option<String>,
}

/// The text of an optional string.
pub open spec fn opt_text(o: Option<String>) -> Option<Seq<char>> {
    match o {
        Some(s) => Some(s@),
        None => None,
    }
}

/// Whether a record describes a printer: a Canon service with an IPv4 address.
pub open spec fn names_printer(r: ServiceRecord) -> bool {
    contains_text(lowercase_text(r.fullname@), "canon"@) && r.ipv4@.len() > 0
}

/// The address text of the printer a record describes.
pub open spec fn record_key(r: ServiceRecord) -> Seq<char> {
    ip_text(r.ipv4@[0]@)
}

/// Whether `p` is the printer that record `r` describes: at its first IPv4
/// address, named and marked from its TXT records, with its identity and no MAC.
pub open spec fn printer_of_record(p: Printer, r: ServiceRecord) -> bool {
    &&& names_printer(r)
    &&& p.ip == r.ipv4@[0]
    &&& p.model@ == model_text(opt_text(r.ty), opt_text(r.usb_mdl))
    &&& p.scan_capable == (opt_text(r.scan) == Some("T"@))
    &&& p.mac is None
    &&& p.identity == r.identity
}

/// Whether record `k` is the earliest of `recs` describing a printer at its address.
pub open spec fn first_record_of_key(recs: Seq<ServiceRecord>, k: int) -> bool {
    &&& 0 <= k < recs.len()
    &&& names_printer(recs[k])
    &&& forall|k2: int|
        0 <= k2 < k && names_printer(#[trigger] recs[k2]) ==> record_key(recs[k2]) != record_key(
            recs[k],
        )
}

fn opt_str(o: &Option<String>) -> (r: Option<&str>)
    ensures
        record_text(r) == opt_text(*o),
{
    match o {
        Some(s) => Some(s.as_str()),
        None => None,
    }
}

fn clone_opt(o: &Option<String>) -> (r: Option<String>)
    ensures
        r == *o,
{
    match o {
        Some(s) => Some(s.clone()),
        None => None,
    }
}

/// Whether `p` is the printer of the earliest record of `recs` at its address.
pub open spec fn from_first_record(recs: Seq<ServiceRecord>, p: Printer) -> bool {
    exists|k: int| #[trigger] first_record_of_key(recs, k) && printer_of_record(p, recs[k])
}

/// Whether the printer of record `k` is among `ps`.
pub open spec fn listed_printer(ps: Seq<Printer>, recs: Seq<ServiceRecord>, k: int) -> bool {
    exists|i: int| 0 <= i < ps.len() && printer_of_record(#[trigger] ps[i], recs[k])
}

/// How the printers found in a stream of records relate to them: `c[j]` is
/// the printer of record `idx[j]`, in order, one for each record naming a printer.
pub open spec fn candidates_of(recs: Seq<ServiceRecord>, c: Seq<Printer>, idx: Seq<int>) -> bool {
    &&& c.len() == idx.len()
    &&& forall|j: int|
        0 <= j < idx.len() ==> 0 <= #[trigger] idx[j] < recs.len() && printer_of_record(
            c[j],
            recs[idx[j]],
        )
    &&& forall|j1: int, j2: int| 0 <= j1 < j2 < idx.len() ==> idx[j1] < idx[j2]
    &&& forall|k: int|
        0 <= k < recs.len() && names_printer(#[trigger] recs[k]) ==> exists|j: int|
            0 <= j < idx.len() && idx[j] == k
}

proof fn lemma_printers_come_from_first_records(
    recs: Seq<ServiceRecord>,
    c: Seq<Printer>,
    idx: Seq<int>,
    ps: Seq<Printer>,
)
    requires
        candidates_of(recs, c, idx),
        forall|i: int| 0 <= i < ps.len() ==> #[trigger] first_of_key_in(ps[i], c),
    ensures
        forall|i: int| 0 <= i < ps.len() ==> #[trigger] from_first_record(recs, ps[i]),
{
    assert forall|i: int| 0 <= i < ps.len() implies #[trigger] from_first_record(recs, ps[i]) by {
        assert(first_of_key_in(ps[i], c));
        let j = choose|j: int| is_first_of_key(c, j) && ps[i] == #[trigger] c[j];
        let k = idx[j];
        assert(printer_of_record(c[j], recs[k]));
        assert forall|k2: int|
            0 <= k2 < k && names_printer(#[trigger] recs[k2]) implies record_key(recs[k2])
            != record_key(recs[k]) by {
            let j2 = choose|j2: int| 0 <= j2 < idx.len() && idx[j2] == k2;
            if j2 > j {
                assert(idx[j] < idx[j2]);
            }
            assert(printer_of_record(c[j2], recs[idx[j2]]));
            assert(printer_key(c[j2]) != printer_key(c[j]));
        }
        assert(first_record_of_key(recs, k));
        assert(printer_of_record(ps[i], recs[k]));
    }
}

proof fn lemma_first_records_give_printers(
    recs: Seq<ServiceRecord>,
    c: Seq<Printer>,
    idx: Seq<int>,
    ps: Seq<Printer>,
)
    requires
        candidates_of(recs, c, idx),
        forall|j: int|
            #[trigger] is_first_of_key(c, j) ==> exists|i: int| 0 <= i < ps.len() && ps[i] == c[j],
    ensures
        forall|k: int| #[trigger] first_record_of_key(recs, k) ==> listed_printer(ps, recs, k),
{
    assert forall|k: int| #[trigger] first_record_of_key(recs, k) implies listed_printer(
        ps,
        recs,
        k,
    ) by {
        assert(names_printer(recs[k]));
        let j = choose|j: int| 0 <= j < idx.len() && idx[j] == k;
        assert(printer_of_record(c[j], recs[k]));
        assert forall|j2: int| 0 <= j2 < j implies printer_key(c[j2]) != printer_key(
            #[trigger] c[j],
        ) by {
            assert(idx[j2] < idx[j]);
            assert(printer_of_record(c[j2], recs[idx[j2]]));
            assert(names_printer(recs[idx[j2]]));
        }
        assert(is_first_of_key(c, j));
        let i = choose|i: int| 0 <= i < ps.len() && ps[i] == c[j];
        assert(printer_of_record(ps[i], recs[k]));
    }
}

/// The printers that a stream of resolved service records describes, in the
/// order they arrived: ordered by address text, each address once, from the
/// earliest record at that address; every Canon record with an IPv4 address
/// has its address among them.
pub fn printers_from_records(recs: &Vec<ServiceRecord>) -> (ps: Vec<Printer>)
    ensures
        strictly_sorted(ps@),
        forall|i: int| 0 <= i < ps@.len() ==> #[trigger] from_first_record(recs@, ps@[i]),
        forall|k: int| #[trigger] first_record_of_key(recs@, k) ==> listed_printer(ps@, recs@, k),
{
    let mut cands: Vec<Printer> = Vec::new();
    let ghost mut idx: Seq<int> = seq![];
    let mut i: usize = 0;
    while i < recs.len()
        invariant
            i <= recs@.len(),
            cands@.len() == idx.len(),
            forall|j: int|
                0 <= j < idx.len() ==> 0 <= #[trigger] idx[j] < i && printer_of_record(
                    cands@[j],
                    recs@[idx[j]],
                ),
            forall|j1: int, j2: int| 0 <= j1 < j2 < idx.len() ==> idx[j1] < idx[j2],
            forall|k: int|
                0 <= k < i && names_printer(#[trigger] recs@[k]) ==> exists|j: int|
                    0 <= j < idx.len() && idx[j] == k,
        decreases recs.len() - i,
    {
        let r = &recs[i];
        let ghost idx0 = idx;
        let found = printer_from_record(
            r.fullname.as_str(),
            r.ipv4.as_slice(),
            opt_str(&r.ty),
            opt_str(&r.usb_mdl),
            opt_str(&r.scan),
        );
        match found {
            Some(p) => {
                let mut p = p;
                p.identity = clone_opt(&r.identity);
                cands.push(p);
                proof {
                    idx = idx.push(i as int);
                }
                assert(idx[idx.len() - 1] == i as int);
            },
            None => {},
        }
        proof {
            assert forall|k: int| 0 <= k < i + 1 && names_printer(#[trigger] recs@[k]) implies exists|j: int|
                0 <= j < idx.len() && idx[j] == k by {
                if k == i {
                    assert(idx[idx.len() - 1] == k);
                } else {
                    let j = choose|j: int| 0 <= j < idx0.len() && idx0[j] == k;
                    assert(idx[j] == idx0[j]);
                }
            }
        }
        i = i + 1;
    }
    let ghost c = cands@;
    let ps = sort_and_dedup(cands);
    proof {
        lemma_printers_come_from_first_records(recs@, c, idx, ps@);
        assert forall|j: int| #[trigger] is_first_of_key(c, j) implies exists|i: int|
            0 <= i < ps@.len() && ps@[i] == c[j] by {
            let p = c[j];
            assert(printer_key(p) == printer_key(c[j]));
        }
        lemma_first_records_give_printers(recs@, c, idx, ps@);
    }
    ps
}

} // verus!
