//! Text building blocks shared by the protocol messages: decimal and
//! hexadecimal renderings of integers, and character-level helpers.
use vstd::prelude::*;
use vstd::string::*;

verus! {

/// The ASCII character for a digit value below sixteen (lower-case hex).
pub open spec fn digit_char(d: nat) -> char {
    if d < 10 {
        (48 + d) as char
    } else {
        (87 + d) as char
    }
}

/// Decimal rendering of a natural number, without sign or leading zeros.
pub open spec fn decimal(n: nat) -> Seq<char>
    decreases n,
{
    if n < 10 {
        seq![digit_char(n)]
    } else {
        decimal(n / 10).push(digit_char(n % 10))
    }
}

/// Two lower-case hexadecimal digits of a byte (`{:02x}`).
pub open spec fn hex2(b: u8) -> Seq<char> {
    seq![digit_char((b / 16) as nat), digit_char((b % 16) as nat)]
}

/// Appends one character to a string (`String::push`).
#[verifier::external_body]
pub(crate) fn push_char(s: &mut String, c: char)
    ensures
        final(s)@ == old(s)@.push(c),
{
    s.push(c);
}

/// The character of a digit value below sixteen.
pub fn digit_to_char(d: u8) -> (c: char)
    requires
        d < 16,
    ensures
        c == digit_char(d as nat),
{
    if d < 10 {
        ((48 + d) as u8) as char
    } else {
        ((87 + d) as u8) as char
    }
}

/// Appends the decimal rendering of `n`.
pub fn append_decimal(s: &mut String, n: u64)
    ensures
        final(s)@ == old(s)@ + decimal(n as nat),
    decreases n,
{
    if n >= 10 {
        append_decimal(s, n / 10);
    }
    let d = (n % 10) as u8;
    push_char(s, digit_to_char(d));
    assert(s@ =~= old(s)@ + decimal(n as nat)) by {
        if n >= 10 {
            assert(decimal(n as nat) == decimal((n / 10) as nat).push(digit_char((n % 10) as nat)));
        }
    }
}

/// Appends two lower-case hexadecimal digits of `b`.
pub fn append_hex2(s: &mut String, b: u8)
    ensures
        final(s)@ == old(s)@ + hex2(b),
{
    push_char(s, digit_to_char(b / 16));
    push_char(s, digit_to_char(b % 16));
    assert(s@ =~= old(s)@ + hex2(b));
}

/// A fresh string holding `lit`.
pub fn string_of(lit: &str) -> (s: String)
    ensures
        s@ == lit@,
{
    String::from_str(lit)
}


/// What `String::from_utf8_lossy` makes of a byte sequence.
pub uninterp spec fn lossy_utf8(bytes: Seq<u8>) -> Seq<char>;

/// `String::from_utf8_lossy`: the text of `bytes`, each invalid sequence
/// replaced by U+FFFD. Claimed: the result is a function of the bytes alone,
/// and for valid UTF-8 it is the decoded text.
#[verifier::external_body]
pub(crate) fn utf8_lossy(bytes: &[u8]) -> (s: String)
    ensures
        s@ == lossy_utf8(bytes@),
        vstd::utf8::valid_utf8(bytes@) ==> s@ == vstd::utf8::decode_utf8(bytes@),
{
    String::from_utf8_lossy(bytes).into_owned()
}


/// The characters of a text (`s.chars().collect()`).
#[verifier::external_body]
pub(crate) fn chars_of(s: &str) -> (v: Vec<char>)
    ensures
        v@ == s@,
{
    s.chars().collect()
}

/// What `str::to_lowercase` makes of a text.
pub uninterp spec fn lowercase_text(s: Seq<char>) -> Seq<char>;

/// `str::to_lowercase`: the Unicode lower-case mapping of each character.
/// Claimed: the result is a function of the text alone.
#[verifier::external_body]
pub(crate) fn to_lowercase(s: &str) -> (r: String)
    ensures
        r@ == lowercase_text(s@),
{
    s.to_lowercase()
}

/// Unicode `White_Space`, the set `char::is_whitespace` and `str::trim` use.
pub open spec fn is_space(c: char) -> bool {
    ('\u{9}' <= c && c <= '\u{d}') || c == ' ' || c == '\u{85}' || c == '\u{a0}' || c
        == '\u{1680}' || ('\u{2000}' <= c && c <= '\u{200a}') || c == '\u{2028}' || c
        == '\u{2029}' || c == '\u{202f}' || c == '\u{205f}' || c == '\u{3000}'
}

/// `char::is_whitespace`.
pub fn char_is_space(c: char) -> (b: bool)
    ensures
        b == is_space(c),
{
    ('\u{9}' <= c && c <= '\u{d}') || c == ' ' || c == '\u{85}' || c == '\u{a0}' || c
        == '\u{1680}' || ('\u{2000}' <= c && c <= '\u{200a}') || c == '\u{2028}' || c
        == '\u{2029}' || c == '\u{202f}' || c == '\u{205f}' || c == '\u{3000}'
}

/// Index of the first non-space character at or after `i` (or the length).
pub open spec fn skip_spaces(s: Seq<char>, i: int) -> int
    decreases s.len() - i,
{
    if i < 0 || i >= s.len() {
        s.len() as int
    } else if is_space(s[i]) {
        skip_spaces(s, i + 1)
    } else {
        i
    }
}

/// One past the last non-space character before `j` (at least `lo`).
pub open spec fn back_spaces(s: Seq<char>, lo: int, j: int) -> int
    decreases j - lo,
{
    if j <= lo || j > s.len() {
        if j > s.len() { s.len() as int } else { lo }
    } else if is_space(s[j - 1]) {
        back_spaces(s, lo, j - 1)
    } else {
        j
    }
}

/// `str::trim`: the text without leading and trailing white space.
pub open spec fn trimmed(s: Seq<char>) -> Seq<char> {
    let a = skip_spaces(s, 0);
    let b = back_spaces(s, a, s.len() as int);
    s.subrange(a, b)
}

proof fn lemma_skip_spaces_bound(s: Seq<char>, i: int)
    requires
        0 <= i <= s.len(),
    ensures
        i <= skip_spaces(s, i) <= s.len(),
    decreases s.len() - i,
{
    if i < s.len() && is_space(s[i]) {
        lemma_skip_spaces_bound(s, i + 1);
    }
}

proof fn lemma_back_spaces_bound(s: Seq<char>, lo: int, j: int)
    requires
        0 <= lo <= j <= s.len(),
    ensures
        lo <= back_spaces(s, lo, j) <= j,
    decreases j - lo,
{
    if j > lo && is_space(s[j - 1]) {
        lemma_back_spaces_bound(s, lo, j - 1);
    }
}

/// The bounds `(a, b)` with `s[a..b]` the trimmed text.
pub fn trim_bounds(s: &[char]) -> (r: (usize, usize))
    ensures
        r.0 as int == skip_spaces(s@, 0),
        r.1 as int == back_spaces(s@, r.0 as int, s@.len() as int),
        r.0 <= r.1 <= s@.len(),
        s@.subrange(r.0 as int, r.1 as int) == trimmed(s@),
{
    let mut a: usize = 0;
    while a < s.len() && char_is_space(s[a])
        invariant
            a <= s@.len(),
            skip_spaces(s@, 0) == skip_spaces(s@, a as int),
        decreases s.len() - a,
    {
        a = a + 1;
    }
    let mut b: usize = s.len();
    while b > a && char_is_space(s[b - 1])
        invariant
            a <= b <= s@.len(),
            back_spaces(s@, a as int, s@.len() as int) == back_spaces(s@, a as int, b as int),
        decreases b - a,
    {
        b = b - 1;
    }
    proof {
        lemma_skip_spaces_bound(s@, 0);
        lemma_back_spaces_bound(s@, a as int, s@.len() as int);
    }
    (a, b)
}

/// Whether `pat` occurs in `s` at position `i`.
pub open spec fn occurs_at(s: Seq<char>, pat: Seq<char>, i: int) -> bool {
    0 <= i && i + pat.len() <= s.len() && s.subrange(i, i + pat.len()) == pat
}

/// `str::contains` for a text pattern.
pub open spec fn contains_text(s: Seq<char>, pat: Seq<char>) -> bool {
    exists|i: int| #[trigger] occurs_at(s, pat, i)
}

/// Whether `pat` occurs in `s` at position `i`.
pub fn matches_at(s: &[char], pat: &[char], i: usize) -> (b: bool)
    ensures
        b == occurs_at(s@, pat@, i as int),
{
    if i > s.len() || pat.len() > s.len() - i {
        return false;
    }
    let n = s.len();
    let mut k: usize = 0;
    while k < pat.len()
        invariant
            n == s@.len(),
            k <= pat@.len(),
            i + pat@.len() <= s@.len(),
            forall|t: int| 0 <= t < k ==> s@[i + t] == pat@[t],
        decreases pat.len() - k,
    {
        let idx: usize = i + k;
        if s[idx] != pat[k] {
            assert(s@.subrange(i as int, i + pat@.len())[k as int] != pat@[k as int]);
            return false;
        }
        k = k + 1;
    }
    assert(s@.subrange(i as int, i + pat@.len()) =~= pat@);
    true
}

/// `str::contains` for a text pattern.
pub fn contains_chars(s: &[char], pat: &[char]) -> (b: bool)
    ensures
        b == contains_text(s@, pat@),
{
    let mut i: usize = 0;
    while i < s.len()
        invariant
            i <= s@.len(),
            forall|j: int| 0 <= j < i ==> !occurs_at(s@, pat@, j),
        decreases s.len() - i,
    {
        if matches_at(s, pat, i) {
            return true;
        }
        i = i + 1;
    }
    if matches_at(s, pat, s.len()) {
        return true;
    }
    assert forall|j: int| #[trigger] occurs_at(s@, pat@, j) implies false by {
        assert(0 <= j <= s@.len());
    }
    false
}

/// Why a text is not an unsigned integer (`core::num::IntErrorKind`).
#[derive(Debug, Clone, Copy, PartialEq, Eq, Structural)]
pub enum IntErrorKind {
    Empty,
    InvalidDigit,
    PosOverflow,
}

/// The value of an ASCII digit character in `radix` (at most 36).
pub open spec fn char_digit(c: char, radix: nat) -> Option<nat> {
    let v: int = if '0' <= c && c <= '9' {
        c as int - 48
    } else if 'a' <= c && c <= 'z' {
        c as int - 87
    } else if 'A' <= c && c <= 'Z' {
        c as int - 55
    } else {
        99
    };
    if v < radix {
        Some(v as nat)
    } else {
        None
    }
}

/// Digits read left to right, stopping at the first bad digit or overflow past `max`.
pub open spec fn digit_scan(s: Seq<char>, radix: nat, max: nat) -> Result<nat, IntErrorKind>
    decreases s.len(),
{
    if s.len() == 0 {
        Ok(0)
    } else {
        match digit_scan(s.drop_last(), radix, max) {
            Err(e) => Err(e),
            Ok(acc) => match char_digit(s.last(), radix) {
                None => Err(IntErrorKind::InvalidDigit),
                Some(d) => if acc * radix + d > max {
                    Err(IntErrorKind::PosOverflow)
                } else {
                    Ok(acc * radix + d)
                },
            },
        }
    }
}

/// `from_str_radix` / `str::parse` for an unsigned type with maximum `max`.
pub open spec fn parse_uint(s: Seq<char>, radix: nat, max: nat) -> Result<nat, IntErrorKind> {
    if s.len() == 0 {
        Err(IntErrorKind::Empty)
    } else if s.len() == 1 && (s[0] == '+' || s[0] == '-') {
        Err(IntErrorKind::InvalidDigit)
    } else if s[0] == '+' {
        digit_scan(s.drop_first(), radix, max)
    } else {
        digit_scan(s, radix, max)
    }
}

fn char_digit_exec(c: char, radix: u64) -> (d: Option<u64>)
    requires
        2 <= radix <= 36,
    ensures
        d matches Some(v) ==> char_digit(c, radix as nat) == Some(v as nat),
        d is None ==> char_digit(c, radix as nat) is None,
{
    let v: u64 = if '0' <= c && c <= '9' {
        (c as u32 - 48) as u64
    } else if 'a' <= c && c <= 'z' {
        (c as u32 - 87) as u64
    } else if 'A' <= c && c <= 'Z' {
        (c as u32 - 55) as u64
    } else {
        99
    };
    if v < radix {
        Some(v)
    } else {
        None
    }
}

/// Parses `s[from..to]` as an unsigned integer in `radix` no larger than `max`.
pub fn parse_uint_chars(s: &[char], from: usize, to: usize, radix: u64, max: u64) -> (r: Result<
    u64,
    IntErrorKind,
>)
    requires
        from <= to <= s@.len(),
        2 <= radix <= 36,
    ensures
        match parse_uint(s@.subrange(from as int, to as int), radix as nat, max as nat) {
            Ok(v) => r == Ok::<u64, IntErrorKind>(v as u64),
            Err(e) => r == Err::<u64, IntErrorKind>(e),
        },
{
    let ghost t = s@.subrange(from as int, to as int);
    if from == to {
        return Err(IntErrorKind::Empty);
    }
    if to - from == 1 && (s[from] == '+' || s[from] == '-') {
        return Err(IntErrorKind::InvalidDigit);
    }
    let start = if s[from] == '+' {
        from + 1
    } else {
        from
    };
    let ghost digits = s@.subrange(start as int, to as int);
    assert(t[0] == s@[from as int]);
    assert(s[from as int] == '+' ==> digits =~= t.drop_first());
    assert(s[from as int] != '+' ==> digits =~= t);
    assert(parse_uint(t, radix as nat, max as nat) == digit_scan(digits, radix as nat, max as nat));
    let mut acc: u64 = 0;
    let mut i: usize = start;
    while i < to
        invariant
            start <= i <= to <= s@.len(),
            digits == s@.subrange(start as int, to as int),
            parse_uint(s@.subrange(from as int, to as int), radix as nat, max as nat) == digit_scan(
                digits,
                radix as nat,
                max as nat,
            ),
            acc <= max,
            2 <= radix <= 36,
            digit_scan(s@.subrange(start as int, i as int), radix as nat, max as nat) == Ok::<
                nat,
                IntErrorKind,
            >(acc as nat),
        decreases to - i,
    {
        assert(s@.subrange(start as int, i + 1).drop_last() =~= s@.subrange(start as int, i as int));
        assert(s@.subrange(start as int, i + 1).last() == s@[i as int]);
        let d = match char_digit_exec(s[i], radix) {
            Some(d) => d,
            None => {
                assert(digit_scan(s@.subrange(start as int, i + 1), radix as nat, max as nat)
                    == Err::<nat, IntErrorKind>(IntErrorKind::InvalidDigit));
                proof { lemma_scan_error_sticks(s@, start as int, i + 1, to as int, radix as nat, max as nat); }
                return Err(IntErrorKind::InvalidDigit);
            },
        };
        assert(acc as int * radix as int <= 0xFFFF_FFFF_FFFF_FFFF * 36) by (nonlinear_arith)
            requires acc <= 0xFFFF_FFFF_FFFF_FFFFu64, radix <= 36;
        let next: u128 = acc as u128 * radix as u128 + d as u128;
        if next > max as u128 {
            assert(digit_scan(s@.subrange(start as int, i + 1), radix as nat, max as nat)
                == Err::<nat, IntErrorKind>(IntErrorKind::PosOverflow));
            proof { lemma_scan_error_sticks(s@, start as int, i + 1, to as int, radix as nat, max as nat); }
            return Err(IntErrorKind::PosOverflow);
        }
        acc = next as u64;
        i = i + 1;
    }
    assert(s@.subrange(start as int, i as int) == digits);
    Ok(acc)
}

proof fn lemma_scan_error_sticks(s: Seq<char>, start: int, k: int, to: int, radix: nat, max: nat)
    requires
        0 <= start < k <= to <= s.len(),
        digit_scan(s.subrange(start, k), radix, max) is Err,
    ensures
        digit_scan(s.subrange(start, to), radix, max) == digit_scan(s.subrange(start, k), radix, max),
    decreases to - k,
{
    if k < to {
        lemma_scan_error_sticks(s, start, k, to - 1, radix, max);
        assert(s.subrange(start, to).drop_last() =~= s.subrange(start, to - 1));
    }
}


/// What `std::str::Utf8Error`'s `Display` says of invalid bytes.
pub uninterp spec fn utf8_error_text(bytes: Seq<u8>) -> Seq<char>;

/// `String::from_utf8`, with the error rendered by its `Display`. Claimed:
/// it succeeds exactly on valid UTF-8, with the decoded text, and its error
/// text is a function of the bytes alone.
#[verifier::external_body]
pub(crate) fn string_from_utf8(bytes: Vec<u8>) -> (r: Result<String, String>)
    ensures
        r is Ok == vstd::utf8::valid_utf8(bytes@),
        r matches Ok(s) ==> s@ == vstd::utf8::decode_utf8(bytes@),
        r matches Err(t) ==> t@ == utf8_error_text(bytes@),
{
    match String::from_utf8(bytes) {
        Ok(s) => Ok(s),
        Err(e) => Err(e.to_string()),
    }
}


/// Whether two texts are equal.
pub fn text_eq(a: &str, b: &str) -> (eq: bool)
    ensures
        eq == (a@ == b@),
{
    let x = chars_of(a);
    let y = chars_of(b);
    if x.len() != y.len() {
        return false;
    }
    let mut i: usize = 0;
    while i < x.len()
        invariant
            x@.len() == y@.len(),
            x@ == a@,
            y@ == b@,
            i <= x@.len(),
            forall|k: int| 0 <= k < i ==> x@[k] == y@[k],
        decreases x.len() - i,
    {
        if x[i] != y[i] {
            assert(x@[i as int] != y@[i as int]);
            return false;
        }
        i = i + 1;
    }
    assert(x@ =~= y@);
    true
}


proof fn lemma_digit_char_value(d: nat)
    requires
        d < 10,
    ensures
        char_digit(digit_char(d), 10) == Some(d),
        '0' <= digit_char(d) <= '9',
{
}

/// A decimal rendering is not empty and starts and ends with a digit.
pub proof fn lemma_decimal_first_digit(n: nat)
    ensures
        decimal(n).len() >= 1,
        '0' <= decimal(n)[0] <= '9',
        '0' <= decimal(n).last() <= '9',
    decreases n,
{
    if n >= 10 {
        lemma_decimal_first_digit(n / 10);
        lemma_digit_char_value(n % 10);
    } else {
        lemma_digit_char_value(n);
    }
}

proof fn lemma_decimal_scan(n: nat, max: nat)
    requires
        n <= max,
    ensures
        digit_scan(decimal(n), 10, max) == Ok::<nat, IntErrorKind>(n),
    decreases n,
{
    lemma_decimal_first_digit(n);
    if n < 10 {
        lemma_digit_char_value(n);
        assert(decimal(n).drop_last() =~= Seq::<char>::empty());
    } else {
        lemma_decimal_scan(n / 10, max);
        lemma_digit_char_value(n % 10);
        assert(decimal(n).drop_last() =~= decimal(n / 10));
    }
}

/// Reading back the decimal rendering of a number gives the number, when it
/// fits the type read into.
pub proof fn lemma_decimal_parses_back(n: nat, max: nat)
    requires
        n <= max,
    ensures
        parse_uint(decimal(n), 10, max) == Ok::<nat, IntErrorKind>(n),
{
    lemma_decimal_first_digit(n);
    lemma_decimal_scan(n, max);
}

} // verus!
