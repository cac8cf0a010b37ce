//! Domain-separated 128-bit identifiers derived with FNV-1a.
use vstd::prelude::*;

use crate::text::push_str;
use vstd::string::StringSliceAdditionalSpecFns;
use vstd::array::ArrayAdditionalExecFns;

verus! {

/// Fixed-size deterministic identifier payload.
#[derive(Debug, Clone, Copy, PartialEq, Eq, Hash, PartialOrd, Ord)]
pub struct DeterministicId(pub [u8; 16]);

/// Derivation errors for deterministic ids.
#[derive(Debug, Clone, Copy, PartialEq, Eq, Hash, Structural)]
pub enum DeterministicIdError {
    EmptyIdKind,
    EmptySchemaVersion,
    EmptyCanonicalPath,
}

/// The FNV-1a 128-bit offset basis.
pub const FNV_OFFSET_BASIS: u128 = 144_066_263_297_769_815_596_495_629_667_062_367_629u128;

/// The FNV-1a 128-bit prime.
pub const FNV_PRIME: u128 = 309_485_009_821_345_068_724_781_371u128;

/// One FNV-1a round: xor the byte in, then multiply by the prime modulo 2^128.
pub open spec fn fnv_step(h: u128, b: u8) -> u128 {
    (h ^ (b as u128)).wrapping_mul(FNV_PRIME)
}

/// FNV-1a state after feeding `bytes` to state `h`.
pub open spec fn fnv_feed(h: u128, bytes: Seq<u8>) -> u128
    decreases bytes.len(),
{
    if bytes.len() == 0 {
        h
    } else {
        fnv_step(fnv_feed(h, bytes.drop_last()), bytes.last())
    }
}

/// Big-endian bytes of a 64-bit number.
pub open spec fn be_bytes_u64(x: u64) -> Seq<u8> {
    Seq::new(8, |k: int| ((x >> ((56 - 8 * k) as u64)) & 0xff) as u8)
}

/// Big-endian bytes of a 128-bit number.
pub open spec fn be_bytes_u128(x: u128) -> Seq<u8> {
    Seq::new(16, |k: int| ((x >> ((120 - 8 * k) as u128)) & 0xff) as u8)
}

/// The domain tag of the derivation.
pub open spec fn derivation_domain() -> Seq<u8> {
    "jw-guard:canon:deterministic-id:v1"@.map_values(|c: char| c as u8)
}

/// One tagged, length-prefixed field of the derivation input.
pub open spec fn field_bytes(tag: u8, value: Seq<u8>) -> Seq<u8> {
    seq![tag] + be_bytes_u64(value.len() as u64) + value
}

/// The full byte stream hashed by `DeterministicId::derive`.
pub open spec fn derivation_input(kind: Seq<u8>, version: Seq<u8>, path: Seq<u8>) -> Seq<u8> {
    derivation_domain() + seq![0u8] + field_bytes(1, kind) + field_bytes(2, version) + field_bytes(
        3,
        path,
    )
}

/// The identifier `derive` yields for the UTF-8 bytes of its three inputs.
pub open spec fn derived_id(kind: Seq<u8>, version: Seq<u8>, path: Seq<u8>) -> Seq<u8> {
    be_bytes_u128(fnv_feed(FNV_OFFSET_BASIS, derivation_input(kind, version, path)))
}

/// Lowercase hexadecimal digit for a value below 16.
pub open spec fn hex_digit(d: u8) -> char {
    if d < 10 {
        ((d + 48) as u32) as char
    } else {
        ((d + 87) as u32) as char
    }
}

/// Lowercase hexadecimal rendering, two digits per byte, high nibble first.
pub open spec fn hex_of(bytes: Seq<u8>) -> Seq<char>
    decreases bytes.len(),
{
    if bytes.len() == 0 {
        Seq::<char>::empty()
    } else {
        hex_of(bytes.drop_last()).push(hex_digit(bytes.last() >> 4)).push(
            hex_digit(bytes.last() & 0x0f),
        )
    }
}

/// Running FNV-1a hash state.
struct Fnv1a128 {
    state: u128,
}

impl Fnv1a128 {
    fn new() -> (r: Self)
        ensures
            r.state == FNV_OFFSET_BASIS,
    {
        Fnv1a128 { state: FNV_OFFSET_BASIS }
    }

    fn write(&mut self, bytes: &[u8])
        ensures
            final(self).state == fnv_feed(old(self).state, bytes@),
    {
        let ghost start = self.state;
        let mut i: usize = 0;
        while i < bytes.len()
            invariant
                i <= bytes@.len(),
                self.state == fnv_feed(start, bytes@.take(i as int)),
            decreases bytes@.len() - i,
        {
            assert(bytes@.take(i as int + 1).drop_last() =~= bytes@.take(i as int));
            self.state = (self.state ^ (bytes[i] as u128)).wrapping_mul(FNV_PRIME);
            i = i + 1;
        }
        assert(bytes@.take(i as int) =~= bytes@);
    }

    fn finish(&self) -> (r: u128)
        ensures
            r == self.state,
    {
        self.state
    }
}

/// Feeding two byte runs one after another is feeding their concatenation.
proof fn lemma_fnv_feed_concat(h: u128, a: Seq<u8>, b: Seq<u8>)
    ensures
        fnv_feed(fnv_feed(h, a), b) == fnv_feed(h, a + b),
    decreases b.len(),
{
    if b.len() == 0 {
        assert(a + b =~= a);
    } else {
        lemma_fnv_feed_concat(h, a, b.drop_last());
        assert((a + b).drop_last() =~= a + b.drop_last());
        assert((a + b).last() == b.last());
    }
}

/// Big-endian bytes of a 64-bit length.
fn u64_be_bytes(x: u64) -> (r: [u8; 8])
    ensures
        r@ == be_bytes_u64(x),
{
    let mut r = [0u8; 8];
    let mut k: usize = 0;
    while k < 8
        invariant
            k <= 8,
            r@.len() == 8,
            forall|j: int| 0 <= j < k ==> r@[j] == be_bytes_u64(x)[j],
        decreases 8 - k,
    {
        let shift = (56 - 8 * k) as u64;
        r.set(k, ((x >> shift) & 0xff) as u8);
        k = k + 1;
    }
    assert(r@ =~= be_bytes_u64(x));
    r
}

/// Writes one tagged, length-prefixed field.
fn write_field(hasher: &mut Fnv1a128, tag: u8, value: &str)
    ensures
        final(hasher).state == fnv_feed(old(hasher).state, field_bytes(tag, value.spec_bytes())),
{
    let bytes = value.as_bytes();
    let len = bytes.len() as u64;
    let tag_bytes = [tag];
    let len_bytes = u64_be_bytes(len);
    let ghost h0 = hasher.state;
    hasher.write(&tag_bytes);
    hasher.write(&len_bytes);
    hasher.write(bytes);
    proof {
        assert(tag_bytes@ =~= seq![tag]);
        lemma_fnv_feed_concat(h0, seq![tag], be_bytes_u64(len));
        lemma_fnv_feed_concat(h0, seq![tag] + be_bytes_u64(len), value.spec_bytes());
    }
}

/// The domain tag as bytes.
fn domain_bytes() -> (r: Vec<u8>)
    ensures
        r@ == derivation_domain(),
{
    let s = "jw-guard:canon:deterministic-id:v1";
    proof {
        reveal_strlit("jw-guard:canon:deterministic-id:v1");
    }
    let chars = crate::text::chars_of(s);
    let mut r: Vec<u8> = Vec::new();
    let mut i: usize = 0;
    while i < chars.len()
        invariant
            chars@ == s@,
            i <= chars@.len(),
            r@ == s@.take(i as int).map_values(|c: char| c as u8),
        decreases chars@.len() - i,
    {
        r.push(chars[i] as u8);
        i = i + 1;
        assert(r@ =~= s@.take(i as int).map_values(|c: char| c as u8));
    }
    assert(s@.take(i as int) =~= s@);
    r
}

impl DeterministicId {
    /// Wraps raw identifier bytes.
    pub fn from_bytes(bytes: [u8; 16]) -> (r: Self)
        ensures
            r.0 == bytes,
    {
        DeterministicId(bytes)
    }

    /// The raw identifier bytes.
    pub fn as_bytes(self) -> (r: [u8; 16])
        ensures
            r == self.0,
    {
        self.0
    }

    /// Derives a deterministic, domain-separated 128-bit identifier from the
    /// UTF-8 bytes of the id kind, schema version and canonical path; each of
    /// the three must be non-empty, checked in that order.
    pub fn derive(id_kind: &str, schema_version: &str, canonical_path: &str) -> (r: Result<
        Self,
        DeterministicIdError,
    >)
        ensures
            id_kind@.len() == 0 ==> r == Err::<Self, DeterministicIdError>(
                DeterministicIdError::EmptyIdKind,
            ),
            id_kind@.len() > 0 && schema_version@.len() == 0 ==> r == Err::<
                Self,
                DeterministicIdError,
            >(DeterministicIdError::EmptySchemaVersion),
            id_kind@.len() > 0 && schema_version@.len() > 0 && canonical_path@.len() == 0 ==> r
                == Err::<Self, DeterministicIdError>(DeterministicIdError::EmptyCanonicalPath),
            id_kind@.len() > 0 && schema_version@.len() > 0 && canonical_path@.len() > 0 ==> r is Ok
                && r->Ok_0.0@ == derived_id(
                id_kind.spec_bytes(),
                schema_version.spec_bytes(),
                canonical_path.spec_bytes(),
            ),
    {
        if id_kind.is_empty() {
            return Err(DeterministicIdError::EmptyIdKind);
        }
        if schema_version.is_empty() {
            return Err(DeterministicIdError::EmptySchemaVersion);
        }
        if canonical_path.is_empty() {
            return Err(DeterministicIdError::EmptyCanonicalPath);
        }
        let mut hasher = Fnv1a128::new();
        let domain = domain_bytes();
        hasher.write(domain.as_slice());
        let zero = [0u8];
        hasher.write(&zero);
        let ghost h1 = hasher.state;
        write_field(&mut hasher, 1, id_kind);
        let ghost h2 = hasher.state;
        write_field(&mut hasher, 2, schema_version);
        let ghost h3 = hasher.state;
        write_field(&mut hasher, 3, canonical_path);
        let h = hasher.finish();
        proof {
            let d = derivation_domain();
            let f1 = field_bytes(1, id_kind.spec_bytes());
            let f2 = field_bytes(2, schema_version.spec_bytes());
            let f3 = field_bytes(3, canonical_path.spec_bytes());
            assert(zero@ =~= seq![0u8]);
            lemma_fnv_feed_concat(FNV_OFFSET_BASIS, d, seq![0u8]);
            lemma_fnv_feed_concat(FNV_OFFSET_BASIS, d + seq![0u8], f1);
            lemma_fnv_feed_concat(FNV_OFFSET_BASIS, d + seq![0u8] + f1, f2);
            lemma_fnv_feed_concat(FNV_OFFSET_BASIS, d + seq![0u8] + f1 + f2, f3);
        }
        Ok(DeterministicId(u128_be_bytes(h)))
    }

    /// Renders the identifier as lowercase hexadecimal.
    pub fn to_hex(self) -> (r: String)
        ensures
            r@ == hex_of(self.0@),
    {
        render_hex(self.0)
    }
}

/// Big-endian bytes of a 128-bit number.
fn u128_be_bytes(x: u128) -> (r: [u8; 16])
    ensures
        r@ == be_bytes_u128(x),
{
    let mut r = [0u8; 16];
    let mut k: usize = 0;
    while k < 16
        invariant
            k <= 16,
            r@.len() == 16,
            forall|j: int| 0 <= j < k ==> r@[j] == be_bytes_u128(x)[j],
        decreases 16 - k,
    {
        let shift = (120 - 8 * k) as u128;
        r.set(k, ((x >> shift) & 0xff) as u8);
        k = k + 1;
    }
    assert(r@ =~= be_bytes_u128(x));
    r
}

/// The lowercase hexadecimal digit of a nibble.
fn hex_char(d: u8) -> (c: &'static str)
    requires
        d < 16,
    ensures
        c@ == seq![hex_digit(d)],
{
    let r = if d == 0 { "0" } else if d == 1 { "1" } else if d == 2 { "2" } else if d == 3 { "3" }
    else if d == 4 { "4" } else if d == 5 { "5" } else if d == 6 { "6" } else if d == 7 { "7" }
    else if d == 8 { "8" } else if d == 9 { "9" } else if d == 10 { "a" } else if d == 11 { "b" }
    else if d == 12 { "c" } else if d == 13 { "d" } else if d == 14 { "e" } else { "f" };
    proof {
        reveal_strlit("0");
        reveal_strlit("1");
        reveal_strlit("2");
        reveal_strlit("3");
        reveal_strlit("4");
        reveal_strlit("5");
        reveal_strlit("6");
        reveal_strlit("7");
        reveal_strlit("8");
        reveal_strlit("9");
        reveal_strlit("a");
        reveal_strlit("b");
        reveal_strlit("c");
        reveal_strlit("d");
        reveal_strlit("e");
        reveal_strlit("f");
    }
    r
}

/// Renders raw id bytes as lowercase hexadecimal.
pub fn render_hex(bytes: [u8; 16]) -> (r: String)
    ensures
        r@ == hex_of(bytes@),
{
    let mut out = String::new();
    let mut i: usize = 0;
    while i < 16
        invariant
            i <= 16,
            bytes@.len() == 16,
            out@ == hex_of(bytes@.take(i as int)),
        decreases 16 - i,
    {
        let b = bytes[i];
        assert(b >> 4 < 16) by (bit_vector);
        assert(b & 0x0f < 16) by (bit_vector);
        assert(bytes@.take(i as int + 1).drop_last() =~= bytes@.take(i as int));
        push_str(&mut out, hex_char(b >> 4));
        push_str(&mut out, hex_char(b & 0x0f));
        i = i + 1;
    }
    assert(bytes@.take(16) =~= bytes@);
    out
}

proof fn lemma_be_bytes_u64_injective(a: u64, b: u64)
    requires
        be_bytes_u64(a) == be_bytes_u64(b),
    ensures
        a == b,
{
    let x = be_bytes_u64(a);
    let y = be_bytes_u64(b);
    assert(x[0] == y[0] && x[1] == y[1] && x[2] == y[2] && x[3] == y[3]);
    assert(x[4] == y[4] && x[5] == y[5] && x[6] == y[6] && x[7] == y[7]);
    let a0 = ((a >> 56u64) & 0xff) as u8;
    let a1 = ((a >> 48u64) & 0xff) as u8;
    let a2 = ((a >> 40u64) & 0xff) as u8;
    let a3 = ((a >> 32u64) & 0xff) as u8;
    let a4 = ((a >> 24u64) & 0xff) as u8;
    let a5 = ((a >> 16u64) & 0xff) as u8;
    let a6 = ((a >> 8u64) & 0xff) as u8;
    let a7 = ((a >> 0u64) & 0xff) as u8;
    let b0 = ((b >> 56u64) & 0xff) as u8;
    let b1 = ((b >> 48u64) & 0xff) as u8;
    let b2 = ((b >> 40u64) & 0xff) as u8;
    let b3 = ((b >> 32u64) & 0xff) as u8;
    let b4 = ((b >> 24u64) & 0xff) as u8;
    let b5 = ((b >> 16u64) & 0xff) as u8;
    let b6 = ((b >> 8u64) & 0xff) as u8;
    let b7 = ((b >> 0u64) & 0xff) as u8;
    assert(x[0] == a0 && x[1] == a1 && x[2] == a2 && x[3] == a3);
    assert(x[4] == a4 && x[5] == a5 && x[6] == a6 && x[7] == a7);
    assert(y[0] == b0 && y[1] == b1 && y[2] == b2 && y[3] == b3);
    assert(y[4] == b4 && y[5] == b5 && y[6] == b6 && y[7] == b7);
    assert(a == b) by (bit_vector)
        requires
            ((a >> 56u64) & 0xff) as u8 == ((b >> 56u64) & 0xff) as u8,
            ((a >> 48u64) & 0xff) as u8 == ((b >> 48u64) & 0xff) as u8,
            ((a >> 40u64) & 0xff) as u8 == ((b >> 40u64) & 0xff) as u8,
            ((a >> 32u64) & 0xff) as u8 == ((b >> 32u64) & 0xff) as u8,
            ((a >> 24u64) & 0xff) as u8 == ((b >> 24u64) & 0xff) as u8,
            ((a >> 16u64) & 0xff) as u8 == ((b >> 16u64) & 0xff) as u8,
            ((a >> 8u64) & 0xff) as u8 == ((b >> 8u64) & 0xff) as u8,
            ((a >> 0u64) & 0xff) as u8 == ((b >> 0u64) & 0xff) as u8,
    ;
}

/// A field read back from the front of a byte run: its tag, its length and
/// its value, and what follows it.
proof fn lemma_field_front(tag: u8, value: Seq<u8>, rest: Seq<u8>)
    ensures
        ({
            let all = field_bytes(tag, value) + rest;
            &&& all[0] == tag
            &&& all.subrange(1, 9) == be_bytes_u64(value.len() as u64)
            &&& all.subrange(9, 9 + value.len() as int) == value
            &&& all.skip(9 + value.len() as int) == rest
        }),
{
    let all = field_bytes(tag, value) + rest;
    assert(all.subrange(1, 9) =~= be_bytes_u64(value.len() as u64));
    assert(all.subrange(9, 9 + value.len() as int) =~= value);
    assert(all.skip(9 + value.len() as int) =~= rest);
}

proof fn lemma_field_injective(tag: u8, x: Seq<u8>, r1: Seq<u8>, y: Seq<u8>, r2: Seq<u8>)
    requires
        field_bytes(tag, x) + r1 == field_bytes(tag, y) + r2,
        x.len() <= u64::MAX,
        y.len() <= u64::MAX,
    ensures
        x == y,
        r1 == r2,
{
    lemma_field_front(tag, x, r1);
    lemma_field_front(tag, y, r2);
    lemma_be_bytes_u64_injective(x.len() as u64, y.len() as u64);
}

/// The derivation input separates its fields: each is tagged and prefixed
/// with its length, so equal inputs come only from equal kinds, versions and
/// paths, and a change to any field changes what is hashed.
pub proof fn lemma_derivation_input_injective(
    kind1: Seq<u8>,
    version1: Seq<u8>,
    path1: Seq<u8>,
    kind2: Seq<u8>,
    version2: Seq<u8>,
    path2: Seq<u8>,
)
    requires
        kind1.len() <= u64::MAX,
        version1.len() <= u64::MAX,
        path1.len() <= u64::MAX,
        kind2.len() <= u64::MAX,
        version2.len() <= u64::MAX,
        path2.len() <= u64::MAX,
        derivation_input(kind1, version1, path1) == derivation_input(kind2, version2, path2),
    ensures
        kind1 == kind2,
        version1 == version2,
        path1 == path2,
{
    let d = derivation_domain() + seq![0u8];
    let rest1 = field_bytes(1, kind1) + (field_bytes(2, version1) + (field_bytes(3, path1)
        + Seq::<u8>::empty()));
    let rest2 = field_bytes(1, kind2) + (field_bytes(2, version2) + (field_bytes(3, path2)
        + Seq::<u8>::empty()));
    assert(derivation_input(kind1, version1, path1) =~= d + rest1);
    assert(derivation_input(kind2, version2, path2) =~= d + rest2);
    assert(rest1 =~= (d + rest1).skip(d.len() as int));
    assert(rest2 =~= (d + rest2).skip(d.len() as int));
    lemma_field_injective(
        1,
        kind1,
        field_bytes(2, version1) + (field_bytes(3, path1) + Seq::<u8>::empty()),
        kind2,
        field_bytes(2, version2) + (field_bytes(3, path2) + Seq::<u8>::empty()),
    );
    lemma_field_injective(
        2,
        version1,
        field_bytes(3, path1) + Seq::<u8>::empty(),
        version2,
        field_bytes(3, path2) + Seq::<u8>::empty(),
    );
    lemma_field_injective(3, path1, Seq::<u8>::empty(), path2, Seq::<u8>::empty());
}

} // verus!
