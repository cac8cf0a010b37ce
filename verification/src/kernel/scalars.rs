//! Scalar values of the core vocabulary and their static format rules.
use vstd::prelude::*;

use crate::kernel::error::GuardError;
use crate::text::{
    chars_contain, chars_of, find_char, first_index_of, is_non_blank, owned,
    str_eq, string_of_range,
};
use vstd::string::StringSliceAdditionalSpecFns;
use vstd::utf8::encode_utf8;
use crate::kernel::duplicate::Duplicate;

verus! {

/// An ASCII decimal digit character.
pub open spec fn is_digit_char(c: char) -> bool {
    '0' <= c && c <= '9'
}

/// An ASCII decimal digit byte.
pub open spec fn is_digit_byte(b: u8) -> bool {
    48 <= b && b <= 57
}

/// Decimal value of a run of digit bytes.
pub open spec fn digits_value(b: Seq<u8>) -> nat
    decreases b.len(),
{
    if b.len() == 0 {
        0
    } else {
        digits_value(b.drop_last()) * 10 + (b.last() - 48) as nat
    }
}

/// The digits of an unsigned decimal literal: an optional leading `+`, then
/// the rest.
pub open spec fn unsigned_digits(b: Seq<u8>) -> Seq<u8> {
    if b.len() > 0 && b[0] == 43 {
        b.skip(1)
    } else {
        b
    }
}

/// What `u8::from_str` gives for these bytes: an optional `+` and at least one
/// digit, of value at most 255.
pub open spec fn parse_u8_spec(b: Seq<u8>) -> Option<u8> {
    let d = unsigned_digits(b);
    if d.len() > 0 && (forall|i: int| 0 <= i < d.len() ==> is_digit_byte(#[trigger] d[i]))
        && digits_value(d) <= 255 {
        Some(digits_value(d) as u8)
    } else {
        None
    }
}

/// The value of a run of digits never decreases as digits are appended.
proof fn lemma_digits_value_monotone(b: Seq<u8>, i: int)
    requires
        0 <= i <= b.len(),
        forall|k: int| 0 <= k < b.len() ==> is_digit_byte(#[trigger] b[k]),
    ensures
        digits_value(b.take(i)) <= digits_value(b),
    decreases b.len() - i,
{
    if i < b.len() {
        lemma_digits_value_monotone(b, i + 1);
        assert(b.take(i + 1).drop_last() =~= b.take(i));
    } else {
        assert(b.take(i) =~= b);
    }
}

/// Parses an unsigned byte the way `u8::from_str` does.
pub fn parse_u8(b: &[u8]) -> (r: Option<u8>)
    ensures
        r == parse_u8_spec(b@),
{
    let start: usize = if b.len() > 0 && b[0] == 43 {
        1
    } else {
        0
    };
    let ghost d = unsigned_digits(b@);
    assert(d =~= b@.skip(start as int));
    if start >= b.len() {
        return None;
    }
    let mut value: u32 = 0;
    let mut i: usize = start;
    while i < b.len()
        invariant
            start <= i <= b@.len(),
            start < b@.len(),
            d == unsigned_digits(b@),
            d =~= b@.skip(start as int),
            forall|k: int| start <= k < i ==> is_digit_byte(#[trigger] b@[k]),
            value == digits_value(b@.subrange(start as int, i as int)),
            value <= 255,
        decreases b@.len() - i,
    {
        if !(48 <= b[i] && b[i] <= 57) {
            assert(d[i - start] == b@[i as int]);
            assert(!is_digit_byte(d[i - start]));
            return None;
        }
        assert(b@.subrange(start as int, i + 1).drop_last() =~= b@.subrange(start as int, i as int));
        let next = value * 10 + (b[i] - 48) as u32;
        assert(b@.subrange(start as int, i + 1).last() == b@[i as int]);
        assert(digits_value(b@.subrange(start as int, i + 1)) == next);
        if next > 255 {
            proof {
                if forall|k: int| 0 <= k < d.len() ==> is_digit_byte(#[trigger] d[k]) {
                    assert(d.take(i + 1 - start) =~= b@.subrange(start as int, i + 1));
                    lemma_digits_value_monotone(d, i + 1 - start);
                }
            }
            return None;
        }
        value = next;
        i = i + 1;
    }
    assert(b@.subrange(start as int, b@.len() as int) =~= d);
    Some(value as u8)
}

/// RFC 3339 UTC form, loosely: ends with `Z`, holds a `T`, and is at least
/// twenty bytes long.
pub open spec fn utc_timestamp_ok(s: Seq<char>) -> bool {
    s.len() > 0 && s.last() == 'Z' && s.contains('T') && encode_utf8(s).len() >= 20
}

/// A lowercase hexadecimal digit byte.
pub open spec fn is_lower_hex_byte(b: u8) -> bool {
    is_digit_byte(b) || (97 <= b && b <= 102)
}

/// Exactly sixty-four bytes, each a lowercase hexadecimal digit.
pub open spec fn lower_hex_64_ok(s: Seq<char>) -> bool {
    let b = encode_utf8(s);
    b.len() == 64 && forall|i: int| 0 <= i < b.len() ==> is_lower_hex_byte(#[trigger] b[i])
}

/// `algorithm:fingerprint` with neither part blank.
pub open spec fn key_fingerprint_ok(s: Seq<char>) -> bool {
    match first_index_of(s, ':') {
        Some(i) => is_non_blank(s.take(i)) && is_non_blank(s.skip(i + 1)),
        None => false,
    }
}

/// A byte that may stand in a hostname pattern.
pub open spec fn is_hostname_byte(b: u8) -> bool {
    is_digit_byte(b) || (65 <= b && b <= 90) || (97 <= b && b <= 122) || b == 46 || b == 45 || b
        == 42
}

/// Non-empty, neither starting nor ending with a dot, and made of ASCII
/// letters, digits, dots, hyphens and asterisks.
pub open spec fn hostname_ok(s: Seq<char>) -> bool {
    let b = encode_utf8(s);
    b.len() > 0 && b[0] != 46 && b.last() != 46 && forall|i: int|
        0 <= i < b.len() ==> is_hostname_byte(#[trigger] b[i])
}

/// `address/prefix` with a non-empty address and a prefix that parses as a
/// byte: at most 128 for an address holding `:`, else at most 32 for one
/// holding `.`; any other address is refused.
pub open spec fn cidr_ok(s: Seq<char>) -> bool {
    match first_index_of(s, '/') {
        Some(i) => {
            let address = s.take(i);
            let prefix = s.skip(i + 1);
            address.len() > 0 && prefix.len() > 0 && match parse_u8_spec(encode_utf8(prefix)) {
                Some(n) => if address.contains(':') {
                    n <= 128
                } else if address.contains('.') {
                    n <= 32
                } else {
                    false
                },
                None => false,
            }
        },
        None => false,
    }
}

/// Starts with `/`.
pub open spec fn absolute_path_ok(s: Seq<char>) -> bool {
    s.len() > 0 && s[0] == '/'
}

/// Three non-empty runs of ASCII digits separated by two dots.
pub open spec fn semver_ok(s: Seq<char>) -> bool {
    exists|i: int, j: int|
        0 < i && i + 1 < j && j + 1 < s.len() && #[trigger] s[i] == '.' && #[trigger] s[j] == '.'
            && forall|k: int| 0 <= k < s.len() && k != i && k != j ==> is_digit_char(#[trigger] s[k])
}

/// `type/subtype` with neither part blank.
pub open spec fn media_type_ok(s: Seq<char>) -> bool {
    match first_index_of(s, '/') {
        Some(i) => is_non_blank(s.take(i)) && is_non_blank(s.skip(i + 1)),
        None => false,
    }
}

/// Five bytes `HH:MM` with hour at most 23 and minute at most 59 (each part as
/// `u8::from_str` reads it).
pub open spec fn hour_minute_ok(s: Seq<char>) -> bool {
    let b = encode_utf8(s);
    b.len() == 5 && b[2] == 58 && match (
        parse_u8_spec(b.subrange(0, 2)),
        parse_u8_spec(b.subrange(3, 5)),
    ) {
        (Some(h), Some(m)) => h <= 23 && m <= 59,
        _ => false,
    }
}

/// Not blank.
pub fn is_non_empty(value: &str) -> (r: bool)
    ensures
        r == is_non_blank(value@),
{
    crate::text::str_non_blank(value)
}

pub fn is_utc_timestamp(value: &str) -> (r: bool)
    ensures
        r == utc_timestamp_ok(value@),
{
    let cs = chars_of(value);
    let n = cs.len();
    let byte_len = value.as_bytes().len();
    n > 0 && cs[n - 1] == 'Z' && chars_contain(cs.as_slice(), 'T') && byte_len >= 20
}

pub fn is_lower_hex_64(value: &str) -> (r: bool)
    ensures
        r == lower_hex_64_ok(value@),
{
    let b = value.as_bytes();
    if b.len() != 64 {
        return false;
    }
    let mut i: usize = 0;
    while i < b.len()
        invariant
            i <= b@.len(),
            b@ == encode_utf8(value@),
            forall|k: int| 0 <= k < i ==> is_lower_hex_byte(#[trigger] b@[k]),
        decreases b@.len() - i,
    {
        let x = b[i];
        if !((48 <= x && x <= 57) || (97 <= x && x <= 102)) {
            return false;
        }
        i = i + 1;
    }
    true
}

pub fn is_key_fingerprint(value: &str) -> (r: bool)
    ensures
        r == key_fingerprint_ok(value@),
{
    let cs = chars_of(value);
    match find_char(cs.as_slice(), ':') {
        Some(i) => {
            let n = cs.len();
            assert(i < n);
            let algorithm = string_of_range(cs.as_slice(), 0, i);
            let fingerprint = string_of_range(cs.as_slice(), i + 1, n);
            assert(algorithm@ =~= value@.take(i as int));
            assert(fingerprint@ =~= value@.skip(i + 1));
            is_non_empty(algorithm.as_str()) && is_non_empty(fingerprint.as_str())
        },
        None => false,
    }
}

pub fn is_hostname(value: &str) -> (r: bool)
    ensures
        r == hostname_ok(value@),
{
    let b = value.as_bytes();
    let n = b.len();
    if n == 0 || b[0] == 46 || b[n - 1] == 46 {
        return false;
    }
    let mut i: usize = 0;
    while i < n
        invariant
            i <= n,
            n == b@.len(),
            b@ == encode_utf8(value@),
            forall|k: int| 0 <= k < i ==> is_hostname_byte(#[trigger] b@[k]),
        decreases n - i,
    {
        let x = b[i];
        if !((48 <= x && x <= 57) || (65 <= x && x <= 90) || (97 <= x && x <= 122) || x == 46 || x
            == 45 || x == 42) {
            return false;
        }
        i = i + 1;
    }
    true
}

pub fn is_cidr(value: &str) -> (r: bool)
    ensures
        r == cidr_ok(value@),
{
    let cs = chars_of(value);
    match find_char(cs.as_slice(), '/') {
        Some(i) => {
            if i == 0 || i + 1 >= cs.len() {
                return false;
            }
            let address = string_of_range(cs.as_slice(), 0, i);
            let prefix = string_of_range(cs.as_slice(), i + 1, cs.len());
            assert(address@ =~= value@.take(i as int));
            assert(prefix@ =~= value@.skip(i + 1));
            let address_chars = chars_of(address.as_str());
            let parsed = parse_u8(prefix.as_str().as_bytes());
            match parsed {
                Some(n) => {
                    if chars_contain(address_chars.as_slice(), ':') {
                        n <= 128
                    } else if chars_contain(address_chars.as_slice(), '.') {
                        n <= 32
                    } else {
                        false
                    }
                },
                None => false,
            }
        },
        None => false,
    }
}

pub fn is_absolute_path(value: &str) -> (r: bool)
    ensures
        r == absolute_path_ok(value@),
{
    let cs = chars_of(value);
    cs.len() > 0 && cs[0] == '/'
}

/// Whether every character in `cs[start..end]` other than those at `i` and
/// `j` is a digit.
fn digits_except(cs: &[char], i: usize, j: usize) -> (r: bool)
    ensures
        r == forall|k: int|
            0 <= k < cs@.len() && k != i && k != j ==> is_digit_char(#[trigger] cs@[k]),
{
    let mut k: usize = 0;
    while k < cs.len()
        invariant
            k <= cs@.len(),
            forall|m: int| 0 <= m < k && m != i && m != j ==> is_digit_char(#[trigger] cs@[m]),
        decreases cs@.len() - k,
    {
        if k != i && k != j && !('0' <= cs[k] && cs[k] <= '9') {
            return false;
        }
        k = k + 1;
    }
    true
}

pub fn is_semver(value: &str) -> (r: bool)
    ensures
        r == semver_ok(value@),
{
    let cs = chars_of(value);
    let n = cs.len();
    let first = find_char(cs.as_slice(), '.');
    let i = match first {
        Some(i) => i,
        None => {
            assert(!semver_ok(value@)) by {
                if semver_ok(value@) {
                    let (a, b) = choose|a: int, b: int|
                        0 < a && a + 1 < b && b + 1 < value@.len() && #[trigger] value@[a] == '.'
                            && #[trigger] value@[b] == '.' && forall|k: int|
                            0 <= k < value@.len() && k != a && k != b ==> is_digit_char(
                                #[trigger] value@[k],
                            );
                    assert(cs@[a] == '.');
                }
            }
            return false;
        },
    };
    assert(i < n);
    let mut j: usize = i + 1;
    while j < n && cs[j] != '.'
        invariant
            i < j <= n,
            n == cs@.len(),
            forall|k: int| i < k < j ==> cs@[k] != '.',
        decreases n - j,
    {
        j = j + 1;
    }
    let ok = 0 < i && j < n && i + 1 < j && j + 1 < n && digits_except(cs.as_slice(), i, j);
    proof {
        assert(first_index_of(cs@, '.') == Some(i as int));
        if ok {
            assert(value@[i as int] == '.' && value@[j as int] == '.');
        } else if semver_ok(value@) {
            let (a, b) = choose|a: int, b: int|
                0 < a && a + 1 < b && b + 1 < value@.len() && #[trigger] value@[a] == '.'
                    && #[trigger] value@[b] == '.' && forall|k: int|
                    0 <= k < value@.len() && k != a && k != b ==> is_digit_char(
                        #[trigger] value@[k],
                    );
            // the first dot is at `a` and the second at `b`
            let w = choose|w: int|
                0 <= w < cs@.len() && cs@[w] == '.' && forall|k: int| 0 <= k < w ==> cs@[k] != '.';
            if a < i {
                assert(cs@[a] != '.');
            }
            if i < a {
                assert(!is_digit_char(value@[i as int]));
            }
            if j < n {
                if j < b {
                    assert(!is_digit_char(value@[j as int]));
                }
                if b < j {
                    assert(cs@[b] != '.');
                }
            } else {
                assert(cs@[b] != '.');
            }
        }
    }
    ok
}

pub fn is_media_type(value: &str) -> (r: bool)
    ensures
        r == media_type_ok(value@),
{
    let cs = chars_of(value);
    match find_char(cs.as_slice(), '/') {
        Some(i) => {
            let n = cs.len();
            assert(i < n);
            let top = string_of_range(cs.as_slice(), 0, i);
            let sub = string_of_range(cs.as_slice(), i + 1, n);
            assert(top@ =~= value@.take(i as int));
            assert(sub@ =~= value@.skip(i + 1));
            is_non_empty(top.as_str()) && is_non_empty(sub.as_str())
        },
        None => false,
    }
}

pub fn is_hour_minute(value: &str) -> (r: bool)
    ensures
        r == hour_minute_ok(value@),
{
    let b = value.as_bytes();
    if b.len() != 5 || b[2] != 58 {
        return false;
    }
    let hour_bytes = slice_range(b, 0, 2);
    let minute_bytes = slice_range(b, 3, 5);
    let hour = parse_u8(hour_bytes.as_slice());
    let minute = parse_u8(minute_bytes.as_slice());
    match (hour, minute) {
        (Some(h), Some(m)) => h <= 23 && m <= 59,
        _ => false,
    }
}

/// The bytes of `b` from `start` up to `end`.
fn slice_range(b: &[u8], start: usize, end: usize) -> (r: Vec<u8>)
    requires
        start <= end <= b@.len(),
    ensures
        r@ == b@.subrange(start as int, end as int),
{
    let mut r: Vec<u8> = Vec::new();
    let mut i: usize = start;
    while i < end
        invariant
            start <= i <= end,
            end <= b@.len(),
            r@ == b@.subrange(start as int, i as int),
        decreases end - i,
    {
        r.push(b[i]);
        i = i + 1;
        assert(r@ =~= b@.subrange(start as int, i as int));
    }
    r
}

/// RFC 3339 timestamp that must be represented in UTC.
#[derive(Debug, Clone, PartialEq, Eq, PartialOrd, Ord, Hash)]
pub struct UtcTimestamp(String);

impl View for UtcTimestamp {
    type V = Seq<char>;

    closed spec fn view(&self) -> Seq<char> {
        self.0@
    }
}

impl UtcTimestamp {
    /// Creates the scalar after checking its static format rules: empty text
    /// is refused as empty, text that breaks the format as invalid.
    pub fn new(value: &str) -> (r: Result<Self, GuardError>)
        ensures
            value@.len() == 0 ==> r == Err::<Self, _>(GuardError::Empty { field: "utc_timestamp" }),
            value@.len() > 0 && !utc_timestamp_ok(value@) ==> r == Err::<Self, _>(
                GuardError::Invalid { field: "utc_timestamp" },
            ),
            value@.len() > 0 && utc_timestamp_ok(value@) ==> (r matches Ok(v) && v@ == value@),
    {
        if value.is_empty() {
            return Err(GuardError::Empty { field: "utc_timestamp" });
        }
        if !is_utc_timestamp(value) {
            return Err(GuardError::Invalid { field: "utc_timestamp" });
        }
        Ok(UtcTimestamp(owned(value)))
    }

    /// Creates the scalar without validation for trusted compile-time catalogs.
    pub fn new_unchecked(value: &str) -> (r: Self)
        ensures
            r@ == value@,
    {
        UtcTimestamp(owned(value))
    }

    /// Returns the inner string slice.
    pub fn as_str(&self) -> (r: &str)
        ensures
            r@ == self@,
    {
        self.0.as_str()
    }

    /// Consumes this scalar and returns its inner string.
    pub fn into_inner(self) -> (r: String)
        ensures
            r@ == self@,
    {
        self.0
    }

    /// Whether two scalars hold the same text.
    pub fn same_text(&self, other: &Self) -> (r: bool)
        ensures
            r == (self@ == other@),
    {
        str_eq(self.0.as_str(), other.0.as_str())
    }

}

/// Lowercase SHA-256 digest encoded as 64 hexadecimal characters.
#[derive(Debug, Clone, PartialEq, Eq, PartialOrd, Ord, Hash)]
pub struct Sha256(String);

impl View for Sha256 {
    type V = Seq<char>;

    closed spec fn view(&self) -> Seq<char> {
        self.0@
    }
}

impl Sha256 {
    /// Creates the scalar after checking its static format rules: empty text
    /// is refused as empty, text that breaks the format as invalid.
    pub fn new(value: &str) -> (r: Result<Self, GuardError>)
        ensures
            value@.len() == 0 ==> r == Err::<Self, _>(GuardError::Empty { field: "sha256" }),
            value@.len() > 0 && !lower_hex_64_ok(value@) ==> r == Err::<Self, _>(
                GuardError::Invalid { field: "sha256" },
            ),
            value@.len() > 0 && lower_hex_64_ok(value@) ==> (r matches Ok(v) && v@ == value@),
    {
        if value.is_empty() {
            return Err(GuardError::Empty { field: "sha256" });
        }
        if !is_lower_hex_64(value) {
            return Err(GuardError::Invalid { field: "sha256" });
        }
        Ok(Sha256(owned(value)))
    }

    /// Creates the scalar without validation for trusted compile-time catalogs.
    pub fn new_unchecked(value: &str) -> (r: Self)
        ensures
            r@ == value@,
    {
        Sha256(owned(value))
    }

    /// Returns the inner string slice.
    pub fn as_str(&self) -> (r: &str)
        ensures
            r@ == self@,
    {
        self.0.as_str()
    }

    /// Consumes this scalar and returns its inner string.
    pub fn into_inner(self) -> (r: String)
        ensures
            r@ == self@,
    {
        self.0
    }

    /// Whether two scalars hold the same text.
    pub fn same_text(&self, other: &Self) -> (r: bool)
        ensures
            r == (self@ == other@),
    {
        str_eq(self.0.as_str(), other.0.as_str())
    }

}

/// Detached signature material encoded outside the core type system.
#[derive(Debug, Clone, PartialEq, Eq, PartialOrd, Ord, Hash)]
pub struct Signature(String);

impl View for Signature {
    type V = Seq<char>;

    closed spec fn view(&self) -> Seq<char> {
        self.0@
    }
}

impl Signature {
    /// Creates the scalar after checking its static format rules: empty text
    /// is refused as empty, text that breaks the format as invalid.
    pub fn new(value: &str) -> (r: Result<Self, GuardError>)
        ensures
            value@.len() == 0 ==> r == Err::<Self, _>(GuardError::Empty { field: "signature" }),
            value@.len() > 0 && !is_non_blank(value@) ==> r == Err::<Self, _>(
                GuardError::Invalid { field: "signature" },
            ),
            value@.len() > 0 && is_non_blank(value@) ==> (r matches Ok(v) && v@ == value@),
    {
        if value.is_empty() {
            return Err(GuardError::Empty { field: "signature" });
        }
        if !is_non_empty(value) {
            return Err(GuardError::Invalid { field: "signature" });
        }
        Ok(Signature(owned(value)))
    }

    /// Creates the scalar without validation for trusted compile-time catalogs.
    pub fn new_unchecked(value: &str) -> (r: Self)
        ensures
            r@ == value@,
    {
        Signature(owned(value))
    }

    /// Returns the inner string slice.
    pub fn as_str(&self) -> (r: &str)
        ensures
            r@ == self@,
    {
        self.0.as_str()
    }

    /// Consumes this scalar and returns its inner string.
    pub fn into_inner(self) -> (r: String)
        ensures
            r@ == self@,
    {
        self.0
    }

    /// Whether two scalars hold the same text.
    pub fn same_text(&self, other: &Self) -> (r: bool)
        ensures
            r == (self@ == other@),
    {
        str_eq(self.0.as_str(), other.0.as_str())
    }

}

/// Algorithm-prefixed key fingerprint.
#[derive(Debug, Clone, PartialEq, Eq, PartialOrd, Ord, Hash)]
pub struct KeyFingerprint(String);

impl View for KeyFingerprint {
    type V = Seq<char>;

    closed spec fn view(&self) -> Seq<char> {
        self.0@
    }
}

impl KeyFingerprint {
    /// Creates the scalar after checking its static format rules: empty text
    /// is refused as empty, text that breaks the format as invalid.
    pub fn new(value: &str) -> (r: Result<Self, GuardError>)
        ensures
            value@.len() == 0 ==> r == Err::<Self, _>(GuardError::Empty { field: "key_fingerprint" }),
            value@.len() > 0 && !key_fingerprint_ok(value@) ==> r == Err::<Self, _>(
                GuardError::Invalid { field: "key_fingerprint" },
            ),
            value@.len() > 0 && key_fingerprint_ok(value@) ==> (r matches Ok(v) && v@ == value@),
    {
        if value.is_empty() {
            return Err(GuardError::Empty { field: "key_fingerprint" });
        }
        if !is_key_fingerprint(value) {
            return Err(GuardError::Invalid { field: "key_fingerprint" });
        }
        Ok(KeyFingerprint(owned(value)))
    }

    /// Creates the scalar without validation for trusted compile-time catalogs.
    pub fn new_unchecked(value: &str) -> (r: Self)
        ensures
            r@ == value@,
    {
        KeyFingerprint(owned(value))
    }

    /// Returns the inner string slice.
    pub fn as_str(&self) -> (r: &str)
        ensures
            r@ == self@,
    {
        self.0.as_str()
    }

    /// Consumes this scalar and returns its inner string.
    pub fn into_inner(self) -> (r: String)
        ensures
            r@ == self@,
    {
        self.0
    }

    /// Whether two scalars hold the same text.
    pub fn same_text(&self, other: &Self) -> (r: bool)
        ensures
            r == (self@ == other@),
    {
        str_eq(self.0.as_str(), other.0.as_str())
    }

}

/// RFC 1123 hostname or explicit wildcard hostname pattern.
#[derive(Debug, Clone, PartialEq, Eq, PartialOrd, Ord, Hash)]
pub struct Hostname(String);

impl View for Hostname {
    type V = Seq<char>;

    closed spec fn view(&self) -> Seq<char> {
        self.0@
    }
}

impl Hostname {
    /// Creates the scalar after checking its static format rules: empty text
    /// is refused as empty, text that breaks the format as invalid.
    pub fn new(value: &str) -> (r: Result<Self, GuardError>)
        ensures
            value@.len() == 0 ==> r == Err::<Self, _>(GuardError::Empty { field: "hostname" }),
            value@.len() > 0 && !hostname_ok(value@) ==> r == Err::<Self, _>(
                GuardError::Invalid { field: "hostname" },
            ),
            value@.len() > 0 && hostname_ok(value@) ==> (r matches Ok(v) && v@ == value@),
    {
        if value.is_empty() {
            return Err(GuardError::Empty { field: "hostname" });
        }
        if !is_hostname(value) {
            return Err(GuardError::Invalid { field: "hostname" });
        }
        Ok(Hostname(owned(value)))
    }

    /// Creates the scalar without validation for trusted compile-time catalogs.
    pub fn new_unchecked(value: &str) -> (r: Self)
        ensures
            r@ == value@,
    {
        Hostname(owned(value))
    }

    /// Returns the inner string slice.
    pub fn as_str(&self) -> (r: &str)
        ensures
            r@ == self@,
    {
        self.0.as_str()
    }

    /// Consumes this scalar and returns its inner string.
    pub fn into_inner(self) -> (r: String)
        ensures
            r@ == self@,
    {
        self.0
    }

    /// Whether two scalars hold the same text.
    pub fn same_text(&self, other: &Self) -> (r: bool)
        ensures
            r == (self@ == other@),
    {
        str_eq(self.0.as_str(), other.0.as_str())
    }

}

/// IPv4 or IPv6 CIDR range.
#[derive(Debug, Clone, PartialEq, Eq, PartialOrd, Ord, Hash)]
pub struct Cidr(String);

impl View for Cidr {
    type V = Seq<char>;

    closed spec fn view(&self) -> Seq<char> {
        self.0@
    }
}

impl Cidr {
    /// Creates the scalar after checking its static format rules: empty text
    /// is refused as empty, text that breaks the format as invalid.
    pub fn new(value: &str) -> (r: Result<Self, GuardError>)
        ensures
            value@.len() == 0 ==> r == Err::<Self, _>(GuardError::Empty { field: "cidr" }),
            value@.len() > 0 && !cidr_ok(value@) ==> r == Err::<Self, _>(
                GuardError::Invalid { field: "cidr" },
            ),
            value@.len() > 0 && cidr_ok(value@) ==> (r matches Ok(v) && v@ == value@),
    {
        if value.is_empty() {
            return Err(GuardError::Empty { field: "cidr" });
        }
        if !is_cidr(value) {
            return Err(GuardError::Invalid { field: "cidr" });
        }
        Ok(Cidr(owned(value)))
    }

    /// Creates the scalar without validation for trusted compile-time catalogs.
    pub fn new_unchecked(value: &str) -> (r: Self)
        ensures
            r@ == value@,
    {
        Cidr(owned(value))
    }

    /// Returns the inner string slice.
    pub fn as_str(&self) -> (r: &str)
        ensures
            r@ == self@,
    {
        self.0.as_str()
    }

    /// Consumes this scalar and returns its inner string.
    pub fn into_inner(self) -> (r: String)
        ensures
            r@ == self@,
    {
        self.0
    }

    /// Whether two scalars hold the same text.
    pub fn same_text(&self, other: &Self) -> (r: bool)
        ensures
            r == (self@ == other@),
    {
        str_eq(self.0.as_str(), other.0.as_str())
    }

}

/// Filesystem path rooted at `/`.
#[derive(Debug, Clone, PartialEq, Eq, PartialOrd, Ord, Hash)]
pub struct AbsolutePath(String);

impl View for AbsolutePath {
    type V = Seq<char>;

    closed spec fn view(&self) -> Seq<char> {
        self.0@
    }
}

impl AbsolutePath {
    /// Creates the scalar after checking its static format rules: empty text
    /// is refused as empty, text that breaks the format as invalid.
    pub fn new(value: &str) -> (r: Result<Self, GuardError>)
        ensures
            value@.len() == 0 ==> r == Err::<Self, _>(GuardError::Empty { field: "absolute_path" }),
            value@.len() > 0 && !absolute_path_ok(value@) ==> r == Err::<Self, _>(
                GuardError::Invalid { field: "absolute_path" },
            ),
            value@.len() > 0 && absolute_path_ok(value@) ==> (r matches Ok(v) && v@ == value@),
    {
        if value.is_empty() {
            return Err(GuardError::Empty { field: "absolute_path" });
        }
        if !is_absolute_path(value) {
            return Err(GuardError::Invalid { field: "absolute_path" });
        }
        Ok(AbsolutePath(owned(value)))
    }

    /// Creates the scalar without validation for trusted compile-time catalogs.
    pub fn new_unchecked(value: &str) -> (r: Self)
        ensures
            r@ == value@,
    {
        AbsolutePath(owned(value))
    }

    /// Returns the inner string slice.
    pub fn as_str(&self) -> (r: &str)
        ensures
            r@ == self@,
    {
        self.0.as_str()
    }

    /// Consumes this scalar and returns its inner string.
    pub fn into_inner(self) -> (r: String)
        ensures
            r@ == self@,
    {
        self.0
    }

    /// Whether two scalars hold the same text.
    pub fn same_text(&self, other: &Self) -> (r: bool)
        ensures
            r == (self@ == other@),
    {
        str_eq(self.0.as_str(), other.0.as_str())
    }

}

/// Semantic version in `major.minor.patch` form.
#[derive(Debug, Clone, PartialEq, Eq, PartialOrd, Ord, Hash)]
pub struct SemVer(String);

impl View for SemVer {
    type V = Seq<char>;

    closed spec fn view(&self) -> Seq<char> {
        self.0@
    }
}

impl SemVer {
    /// Creates the scalar after checking its static format rules: empty text
    /// is refused as empty, text that breaks the format as invalid.
    pub fn new(value: &str) -> (r: Result<Self, GuardError>)
        ensures
            value@.len() == 0 ==> r == Err::<Self, _>(GuardError::Empty { field: "semver" }),
            value@.len() > 0 && !semver_ok(value@) ==> r == Err::<Self, _>(
                GuardError::Invalid { field: "semver" },
            ),
            value@.len() > 0 && semver_ok(value@) ==> (r matches Ok(v) && v@ == value@),
    {
        if value.is_empty() {
            return Err(GuardError::Empty { field: "semver" });
        }
        if !is_semver(value) {
            return Err(GuardError::Invalid { field: "semver" });
        }
        Ok(SemVer(owned(value)))
    }

    /// Creates the scalar without validation for trusted compile-time catalogs.
    pub fn new_unchecked(value: &str) -> (r: Self)
        ensures
            r@ == value@,
    {
        SemVer(owned(value))
    }

    /// Returns the inner string slice.
    pub fn as_str(&self) -> (r: &str)
        ensures
            r@ == self@,
    {
        self.0.as_str()
    }

    /// Consumes this scalar and returns its inner string.
    pub fn into_inner(self) -> (r: String)
        ensures
            r@ == self@,
    {
        self.0
    }

    /// Whether two scalars hold the same text.
    pub fn same_text(&self, other: &Self) -> (r: bool)
        ensures
            r == (self@ == other@),
    {
        str_eq(self.0.as_str(), other.0.as_str())
    }

}

/// One-sentence declaration of a zone's purpose.
#[derive(Debug, Clone, PartialEq, Eq, PartialOrd, Ord, Hash)]
pub struct ZonePurpose(String);

impl View for ZonePurpose {
    type V = Seq<char>;

    closed spec fn view(&self) -> Seq<char> {
        self.0@
    }
}

impl ZonePurpose {
    /// Creates the scalar after checking its static format rules: empty text
    /// is refused as empty, text that breaks the format as invalid.
    pub fn new(value: &str) -> (r: Result<Self, GuardError>)
        ensures
            value@.len() == 0 ==> r == Err::<Self, _>(GuardError::Empty { field: "zone_purpose" }),
            value@.len() > 0 && !is_non_blank(value@) ==> r == Err::<Self, _>(
                GuardError::Invalid { field: "zone_purpose" },
            ),
            value@.len() > 0 && is_non_blank(value@) ==> (r matches Ok(v) && v@ == value@),
    {
        if value.is_empty() {
            return Err(GuardError::Empty { field: "zone_purpose" });
        }
        if !is_non_empty(value) {
            return Err(GuardError::Invalid { field: "zone_purpose" });
        }
        Ok(ZonePurpose(owned(value)))
    }

    /// Creates the scalar without validation for trusted compile-time catalogs.
    pub fn new_unchecked(value: &str) -> (r: Self)
        ensures
            r@ == value@,
    {
        ZonePurpose(owned(value))
    }

    /// Returns the inner string slice.
    pub fn as_str(&self) -> (r: &str)
        ensures
            r@ == self@,
    {
        self.0.as_str()
    }

    /// Consumes this scalar and returns its inner string.
    pub fn into_inner(self) -> (r: String)
        ensures
            r@ == self@,
    {
        self.0
    }

    /// Whether two scalars hold the same text.
    pub fn same_text(&self, other: &Self) -> (r: bool)
        ensures
            r == (self@ == other@),
    {
        str_eq(self.0.as_str(), other.0.as_str())
    }

}

/// Human-readable identity display name.
#[derive(Debug, Clone, PartialEq, Eq, PartialOrd, Ord, Hash)]
pub struct DisplayName(String);

impl View for DisplayName {
    type V = Seq<char>;

    closed spec fn view(&self) -> Seq<char> {
        self.0@
    }
}

impl DisplayName {
    /// Creates the scalar after checking its static format rules: empty text
    /// is refused as empty, text that breaks the format as invalid.
    pub fn new(value: &str) -> (r: Result<Self, GuardError>)
        ensures
            value@.len() == 0 ==> r == Err::<Self, _>(GuardError::Empty { field: "display_name" }),
            value@.len() > 0 && !is_non_blank(value@) ==> r == Err::<Self, _>(
                GuardError::Invalid { field: "display_name" },
            ),
            value@.len() > 0 && is_non_blank(value@) ==> (r matches Ok(v) && v@ == value@),
    {
        if value.is_empty() {
            return Err(GuardError::Empty { field: "display_name" });
        }
        if !is_non_empty(value) {
            return Err(GuardError::Invalid { field: "display_name" });
        }
        Ok(DisplayName(owned(value)))
    }

    /// Creates the scalar without validation for trusted compile-time catalogs.
    pub fn new_unchecked(value: &str) -> (r: Self)
        ensures
            r@ == value@,
    {
        DisplayName(owned(value))
    }

    /// Returns the inner string slice.
    pub fn as_str(&self) -> (r: &str)
        ensures
            r@ == self@,
    {
        self.0.as_str()
    }

    /// Consumes this scalar and returns its inner string.
    pub fn into_inner(self) -> (r: String)
        ensures
            r@ == self@,
    {
        self.0
    }

    /// Whether two scalars hold the same text.
    pub fn same_text(&self, other: &Self) -> (r: bool)
        ensures
            r == (self@ == other@),
    {
        str_eq(self.0.as_str(), other.0.as_str())
    }

}

/// IANA-style media type.
#[derive(Debug, Clone, PartialEq, Eq, PartialOrd, Ord, Hash)]
pub struct MediaType(String);

impl View for MediaType {
    type V = Seq<char>;

    closed spec fn view(&self) -> Seq<char> {
        self.0@
    }
}

impl MediaType {
    /// Creates the scalar after checking its static format rules: empty text
    /// is refused as empty, text that breaks the format as invalid.
    pub fn new(value: &str) -> (r: Result<Self, GuardError>)
        ensures
            value@.len() == 0 ==> r == Err::<Self, _>(GuardError::Empty { field: "media_type" }),
            value@.len() > 0 && !media_type_ok(value@) ==> r == Err::<Self, _>(
                GuardError::Invalid { field: "media_type" },
            ),
            value@.len() > 0 && media_type_ok(value@) ==> (r matches Ok(v) && v@ == value@),
    {
        if value.is_empty() {
            return Err(GuardError::Empty { field: "media_type" });
        }
        if !is_media_type(value) {
            return Err(GuardError::Invalid { field: "media_type" });
        }
        Ok(MediaType(owned(value)))
    }

    /// Creates the scalar without validation for trusted compile-time catalogs.
    pub fn new_unchecked(value: &str) -> (r: Self)
        ensures
            r@ == value@,
    {
        MediaType(owned(value))
    }

    /// Returns the inner string slice.
    pub fn as_str(&self) -> (r: &str)
        ensures
            r@ == self@,
    {
        self.0.as_str()
    }

    /// Consumes this scalar and returns its inner string.
    pub fn into_inner(self) -> (r: String)
        ensures
            r@ == self@,
    {
        self.0
    }

    /// Whether two scalars hold the same text.
    pub fn same_text(&self, other: &Self) -> (r: bool)
        ensures
            r == (self@ == other@),
    {
        str_eq(self.0.as_str(), other.0.as_str())
    }

}

/// Glob pattern used to include or exclude artifact contents.
#[derive(Debug, Clone, PartialEq, Eq, PartialOrd, Ord, Hash)]
pub struct GlobPattern(String);

impl View for GlobPattern {
    type V = Seq<char>;

    closed spec fn view(&self) -> Seq<char> {
        self.0@
    }
}

impl GlobPattern {
    /// Creates the scalar after checking its static format rules: empty text
    /// is refused as empty, text that breaks the format as invalid.
    pub fn new(value: &str) -> (r: Result<Self, GuardError>)
        ensures
            value@.len() == 0 ==> r == Err::<Self, _>(GuardError::Empty { field: "glob_pattern" }),
            value@.len() > 0 && !is_non_blank(value@) ==> r == Err::<Self, _>(
                GuardError::Invalid { field: "glob_pattern" },
            ),
            value@.len() > 0 && is_non_blank(value@) ==> (r matches Ok(v) && v@ == value@),
    {
        if value.is_empty() {
            return Err(GuardError::Empty { field: "glob_pattern" });
        }
        if !is_non_empty(value) {
            return Err(GuardError::Invalid { field: "glob_pattern" });
        }
        Ok(GlobPattern(owned(value)))
    }

    /// Creates the scalar without validation for trusted compile-time catalogs.
    pub fn new_unchecked(value: &str) -> (r: Self)
        ensures
            r@ == value@,
    {
        GlobPattern(owned(value))
    }

    /// Returns the inner string slice.
    pub fn as_str(&self) -> (r: &str)
        ensures
            r@ == self@,
    {
        self.0.as_str()
    }

    /// Consumes this scalar and returns its inner string.
    pub fn into_inner(self) -> (r: String)
        ensures
            r@ == self@,
    {
        self.0
    }

    /// Whether two scalars hold the same text.
    pub fn same_text(&self, other: &Self) -> (r: bool)
        ensures
            r == (self@ == other@),
    {
        str_eq(self.0.as_str(), other.0.as_str())
    }

}

/// UTC hour-minute boundary in `HH:MM` form.
#[derive(Debug, Clone, PartialEq, Eq, PartialOrd, Ord, Hash)]
pub struct HourMinute(String);

impl View for HourMinute {
    type V = Seq<char>;

    closed spec fn view(&self) -> Seq<char> {
        self.0@
    }
}

impl HourMinute {
    /// Creates the scalar after checking its static format rules: empty text
    /// is refused as empty, text that breaks the format as invalid.
    pub fn new(value: &str) -> (r: Result<Self, GuardError>)
        ensures
            value@.len() == 0 ==> r == Err::<Self, _>(GuardError::Empty { field: "hour_minute" }),
            value@.len() > 0 && !hour_minute_ok(value@) ==> r == Err::<Self, _>(
                GuardError::Invalid { field: "hour_minute" },
            ),
            value@.len() > 0 && hour_minute_ok(value@) ==> (r matches Ok(v) && v@ == value@),
    {
        if value.is_empty() {
            return Err(GuardError::Empty { field: "hour_minute" });
        }
        if !is_hour_minute(value) {
            return Err(GuardError::Invalid { field: "hour_minute" });
        }
        Ok(HourMinute(owned(value)))
    }

    /// Creates the scalar without validation for trusted compile-time catalogs.
    pub fn new_unchecked(value: &str) -> (r: Self)
        ensures
            r@ == value@,
    {
        HourMinute(owned(value))
    }

    /// Returns the inner string slice.
    pub fn as_str(&self) -> (r: &str)
        ensures
            r@ == self@,
    {
        self.0.as_str()
    }

    /// Consumes this scalar and returns its inner string.
    pub fn into_inner(self) -> (r: String)
        ensures
            r@ == self@,
    {
        self.0
    }

    /// Whether two scalars hold the same text.
    pub fn same_text(&self, other: &Self) -> (r: bool)
        ensures
            r == (self@ == other@),
    {
        str_eq(self.0.as_str(), other.0.as_str())
    }

}

/// Human-readable detail for an artifact contract violation.
#[derive(Debug, Clone, PartialEq, Eq, PartialOrd, Ord, Hash)]
pub struct ContractViolation(String);

impl View for ContractViolation {
    type V = Seq<char>;

    closed spec fn view(&self) -> Seq<char> {
        self.0@
    }
}

impl ContractViolation {
    /// Creates the scalar after checking its static format rules: empty text
    /// is refused as empty, text that breaks the format as invalid.
    pub fn new(value: &str) -> (r: Result<Self, GuardError>)
        ensures
            value@.len() == 0 ==> r == Err::<Self, _>(GuardError::Empty { field: "contract_violation" }),
            value@.len() > 0 && !is_non_blank(value@) ==> r == Err::<Self, _>(
                GuardError::Invalid { field: "contract_violation" },
            ),
            value@.len() > 0 && is_non_blank(value@) ==> (r matches Ok(v) && v@ == value@),
    {
        if value.is_empty() {
            return Err(GuardError::Empty { field: "contract_violation" });
        }
        if !is_non_empty(value) {
            return Err(GuardError::Invalid { field: "contract_violation" });
        }
        Ok(ContractViolation(owned(value)))
    }

    /// Creates the scalar without validation for trusted compile-time catalogs.
    pub fn new_unchecked(value: &str) -> (r: Self)
        ensures
            r@ == value@,
    {
        ContractViolation(owned(value))
    }

    /// Returns the inner string slice.
    pub fn as_str(&self) -> (r: &str)
        ensures
            r@ == self@,
    {
        self.0.as_str()
    }

    /// Consumes this scalar and returns its inner string.
    pub fn into_inner(self) -> (r: String)
        ensures
            r@ == self@,
    {
        self.0
    }

    /// Whether two scalars hold the same text.
    pub fn same_text(&self, other: &Self) -> (r: bool)
        ensures
            r == (self@ == other@),
    {
        str_eq(self.0.as_str(), other.0.as_str())
    }

}

/// Non-empty policy or governance note.
#[derive(Debug, Clone, PartialEq, Eq, PartialOrd, Ord, Hash)]
pub struct NonEmptyString(String);

impl View for NonEmptyString {
    type V = Seq<char>;

    closed spec fn view(&self) -> Seq<char> {
        self.0@
    }
}

impl NonEmptyString {
    /// Creates the scalar after checking its static format rules: empty text
    /// is refused as empty, text that breaks the format as invalid.
    pub fn new(value: &str) -> (r: Result<Self, GuardError>)
        ensures
            value@.len() == 0 ==> r == Err::<Self, _>(GuardError::Empty { field: "non_empty_string" }),
            value@.len() > 0 && !is_non_blank(value@) ==> r == Err::<Self, _>(
                GuardError::Invalid { field: "non_empty_string" },
            ),
            value@.len() > 0 && is_non_blank(value@) ==> (r matches Ok(v) && v@ == value@),
    {
        if value.is_empty() {
            return Err(GuardError::Empty { field: "non_empty_string" });
        }
        if !is_non_empty(value) {
            return Err(GuardError::Invalid { field: "non_empty_string" });
        }
        Ok(NonEmptyString(owned(value)))
    }

    /// Creates the scalar without validation for trusted compile-time catalogs.
    pub fn new_unchecked(value: &str) -> (r: Self)
        ensures
            r@ == value@,
    {
        NonEmptyString(owned(value))
    }

    /// Returns the inner string slice.
    pub fn as_str(&self) -> (r: &str)
        ensures
            r@ == self@,
    {
        self.0.as_str()
    }

    /// Consumes this scalar and returns its inner string.
    pub fn into_inner(self) -> (r: String)
        ensures
            r@ == self@,
    {
        self.0
    }

    /// Whether two scalars hold the same text.
    pub fn same_text(&self, other: &Self) -> (r: bool)
        ensures
            r == (self@ == other@),
    {
        str_eq(self.0.as_str(), other.0.as_str())
    }

}

/// Non-empty ordered sequence used where the type system requires at least one item.
#[derive(Debug, PartialEq, Eq, PartialOrd, Ord, Hash)]
pub struct NonEmptyVec<T> {
    items: Vec<T>,
}

impl<T> View for NonEmptyVec<T> {
    type V = Seq<T>;

    closed spec fn view(&self) -> Seq<T> {
        self.items@
    }
}

impl<T: Clone> Clone for NonEmptyVec<T> {
    /// A copy holding clones of the items.
    fn clone(&self) -> (r: Self)
        ensures
            r@.len() == self@.len(),
            forall|i: int| 0 <= i < self@.len() ==> cloned::<T>(self@[i], #[trigger] r@[i]),
    {
        proof {
            use_type_invariant(self);
        }
        NonEmptyVec { items: self.items.clone() }
    }
}

impl<T> NonEmptyVec<T> {
    #[verifier::type_invariant]
    closed spec fn holds_an_item(self) -> bool {
        self.items@.len() > 0
    }

    /// Creates a non-empty sequence; an empty one is refused, naming `field`.
    pub fn new(items: Vec<T>, field: &'static str) -> (r: Result<Self, GuardError>)
        ensures
            items@.len() == 0 ==> r == Err::<Self, _>(GuardError::EmptySequence { field }),
            items@.len() > 0 ==> (r matches Ok(v) && v@ == items@),
    {
        if items.len() == 0 {
            return Err(GuardError::EmptySequence { field });
        }
        Ok(NonEmptyVec { items })
    }

    /// Creates a sequence containing one item.
    pub fn from_item(item: T) -> (r: Self)
        ensures
            r@ == seq![item],
    {
        let mut items: Vec<T> = Vec::new();
        items.push(item);
        NonEmptyVec { items }
    }

    /// Returns all items as a slice.
    pub fn as_slice(&self) -> (r: &[T])
        ensures
            r@ == self@,
            r@.len() > 0,
    {
        proof {
            use_type_invariant(self);
        }
        self.items.as_slice()
    }

    /// Returns the number of items.
    pub fn len(&self) -> (r: usize)
        ensures
            r == self@.len(),
            r > 0,
    {
        proof {
            use_type_invariant(self);
        }
        self.items.len()
    }

    /// Returns true when the sequence is empty, which no constructed value is.
    pub fn is_empty(&self) -> (r: bool)
        ensures
            r == (self@.len() == 0),
            !r,
    {
        proof {
            use_type_invariant(self);
        }
        self.items.len() == 0
    }

    /// Consumes this sequence and returns the inner vector.
    pub fn into_vec(self) -> (r: Vec<T>)
        ensures
            r@ == self@,
            r@.len() > 0,
    {
        proof {
            use_type_invariant(&self);
        }
        self.items
    }
}

/// Non-negative duration in seconds.
#[derive(Debug, Copy, Clone, PartialEq, Eq, PartialOrd, Ord, Hash, Structural)]
pub struct DurationSeconds(u64);

impl DurationSeconds {
    pub closed spec fn seconds(self) -> u64 {
        self.0
    }

    /// Creates a duration in seconds.
    pub fn new(seconds: u64) -> (r: Self)
        ensures
            r.seconds() == seconds,
    {
        DurationSeconds(seconds)
    }

    /// Returns the number of seconds.
    pub fn as_secs(self) -> (r: u64)
        ensures
            r == self.seconds(),
    {
        self.0
    }
}

/// TCP or UDP port number in the range 1..=65535.
#[derive(Debug, Copy, Clone, PartialEq, Eq, PartialOrd, Ord, Hash, Structural)]
pub struct Port(u16);

impl Port {
    pub closed spec fn number(self) -> u16 {
        self.0
    }

    /// Creates a port and rejects port zero.
    pub fn new(port: u16) -> (r: Result<Self, GuardError>)
        ensures
            port == 0 ==> r == Err::<Self, _>(GuardError::OutOfRange { field: "port" }),
            port != 0 ==> (r matches Ok(p) && p.number() == port),
    {
        if port == 0 {
            return Err(GuardError::OutOfRange { field: "port" });
        }
        Ok(Port(port))
    }

    /// Creates a port without validation for trusted catalogs.
    pub fn new_unchecked(port: u16) -> (r: Self)
        ensures
            r.number() == port,
    {
        Port(port)
    }

    /// Returns the port number.
    pub fn get(self) -> (r: u16)
        ensures
            r == self.number(),
    {
        self.0
    }
}

/// Byte size used by artifact contracts.
#[derive(Debug, Copy, Clone, PartialEq, Eq, PartialOrd, Ord, Hash, Structural)]
pub struct ByteSize(u64);

impl ByteSize {
    pub closed spec fn bytes(self) -> u64 {
        self.0
    }

    /// Creates a byte size.
    pub fn new(bytes: u64) -> (r: Self)
        ensures
            r.bytes() == bytes,
    {
        ByteSize(bytes)
    }

    /// Returns the number of bytes.
    pub fn get(self) -> (r: u64)
        ensures
            r == self.bytes(),
    {
        self.0
    }
}

/// Positive hourly rate limit.
#[derive(Debug, Copy, Clone, PartialEq, Eq, PartialOrd, Ord, Hash, Structural)]
pub struct Rate(u32);

impl Rate {
    pub closed spec fn per_hour(self) -> u32 {
        self.0
    }

    /// Creates a rate limit and rejects zero.
    pub fn new(max_per_hour: u32) -> (r: Result<Self, GuardError>)
        ensures
            max_per_hour == 0 ==> r == Err::<Self, _>(GuardError::OutOfRange { field: "rate" }),
            max_per_hour != 0 ==> (r matches Ok(v) && v.per_hour() == max_per_hour),
    {
        if max_per_hour == 0 {
            return Err(GuardError::OutOfRange { field: "rate" });
        }
        Ok(Rate(max_per_hour))
    }

    /// Returns the rate limit.
    pub fn get(self) -> (r: u32)
        ensures
            r == self.per_hour(),
    {
        self.0
    }
}

/// One-based gate sequence number.
#[derive(Debug, Copy, Clone, PartialEq, Eq, PartialOrd, Ord, Hash, Structural)]
pub struct GateSequence(u32);

impl GateSequence {
    pub closed spec fn position(self) -> u32 {
        self.0
    }

    /// Creates a gate sequence and rejects zero.
    pub fn new(sequence: u32) -> (r: Result<Self, GuardError>)
        ensures
            sequence == 0 ==> r == Err::<Self, _>(GuardError::OutOfRange { field: "gate_sequence" }),
            sequence != 0 ==> (r matches Ok(v) && v.position() == sequence),
    {
        if sequence == 0 {
            return Err(GuardError::OutOfRange { field: "gate_sequence" });
        }
        Ok(GateSequence(sequence))
    }

    /// Creates a gate sequence without validation for trusted catalogs.
    pub fn new_unchecked(sequence: u32) -> (r: Self)
        ensures
            r.position() == sequence,
    {
        GateSequence(sequence)
    }

    /// Returns the sequence number.
    pub fn get(self) -> (r: u32)
        ensures
            r == self.position(),
    {
        self.0
    }
}

impl Duplicate for UtcTimestamp {
    fn duplicate(&self) -> (r: Self) {
        UtcTimestamp(self.0.clone())
    }
}

impl Duplicate for Sha256 {
    fn duplicate(&self) -> (r: Self) {
        Sha256(self.0.clone())
    }
}

impl Duplicate for Signature {
    fn duplicate(&self) -> (r: Self) {
        Signature(self.0.clone())
    }
}

impl Duplicate for KeyFingerprint {
    fn duplicate(&self) -> (r: Self) {
        KeyFingerprint(self.0.clone())
    }
}

impl Duplicate for Hostname {
    fn duplicate(&self) -> (r: Self) {
        Hostname(self.0.clone())
    }
}

impl Duplicate for Cidr {
    fn duplicate(&self) -> (r: Self) {
        Cidr(self.0.clone())
    }
}

impl Duplicate for AbsolutePath {
    fn duplicate(&self) -> (r: Self) {
        AbsolutePath(self.0.clone())
    }
}

impl Duplicate for SemVer {
    fn duplicate(&self) -> (r: Self) {
        SemVer(self.0.clone())
    }
}

impl Duplicate for ZonePurpose {
    fn duplicate(&self) -> (r: Self) {
        ZonePurpose(self.0.clone())
    }
}

impl Duplicate for DisplayName {
    fn duplicate(&self) -> (r: Self) {
        DisplayName(self.0.clone())
    }
}

impl Duplicate for MediaType {
    fn duplicate(&self) -> (r: Self) {
        MediaType(self.0.clone())
    }
}

impl Duplicate for GlobPattern {
    fn duplicate(&self) -> (r: Self) {
        GlobPattern(self.0.clone())
    }
}

impl Duplicate for HourMinute {
    fn duplicate(&self) -> (r: Self) {
        HourMinute(self.0.clone())
    }
}

impl Duplicate for ContractViolation {
    fn duplicate(&self) -> (r: Self) {
        ContractViolation(self.0.clone())
    }
}

impl Duplicate for NonEmptyString {
    fn duplicate(&self) -> (r: Self) {
        NonEmptyString(self.0.clone())
    }
}

} // verus!
