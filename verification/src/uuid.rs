//! 128-bit UUIDs of GATT attributes and their textual form.
use vstd::prelude::*;
use vstd::string::*;
use vstd::utf8::*;

use crate::error::{IDParseError, OutOfRange};
use crate::hex::{
    ascii_bytes, hex_fmt, lemma_ascii_boundaries, lemma_ascii_encoding, lemma_hex_fmt_chars,
    lemma_hex_fmt_len, lemma_hex_fmt_radix16, lemma_radix16_bound, parse_radix16, pow16, push_char,
    push_hex, radix16,
};

verus! {

/// Represents a UUID used for GATT attributes.
#[derive(PartialEq, Eq, Copy, Clone, PartialOrd, Ord, Hash, Debug, Structural)]
pub struct UUID(pub u128);

/// The Bluetooth base UUID `00000000-0000-1000-8000-00805f9b34fb`.
pub fn bt_base_uuid() -> (r: UUID)
    ensures
        r.0 == 0x0000000000001000800000805F9B34FBu128,
{
    UUID(0x0000000000001000800000805F9B34FBu128)
}

pub open spec fn p96() -> nat {
    0x1_0000_0000_0000_0000_0000_0000nat
}

pub open spec fn p80() -> nat {
    0x1_0000_0000_0000_0000_0000nat
}

pub open spec fn p64() -> nat {
    0x1_0000_0000_0000_0000nat
}

pub open spec fn p48() -> nat {
    0x1_0000_0000_0000nat
}

/// The canonical text of a UUID: five groups of 8, 4, 4, 4 and 12 lower-case hexadecimal
/// digits separated by `-`.
pub open spec fn uuid_text(u: u128) -> Seq<char> {
    hex_fmt(u as nat / p96(), 8, false) + seq!['-'] + hex_fmt(
        (u as nat / p80()) % 0x10000,
        4,
        false,
    ) + seq!['-'] + hex_fmt((u as nat / p64()) % 0x10000, 4, false) + seq!['-'] + hex_fmt(
        (u as nat / p48()) % 0x10000,
        4,
        false,
    ) + seq!['-'] + hex_fmt(u as nat % p48(), 12, false)
}

/// `b[lo..hi]` can be sliced out of the text (both ends are character boundaries).
pub open spec fn sliceable(b: Seq<u8>, lo: int, hi: int) -> bool {
    is_char_boundary(b, lo) && is_char_boundary(b, hi)
}

/// `b[lo..hi]` holds a radix-16 number.
pub open spec fn hex_seg_ok(b: Seq<u8>, lo: int, hi: int) -> bool {
    radix16(b.subrange(lo, hi)) is Some
}

pub open spec fn hex_seg(b: Seq<u8>, lo: int, hi: int) -> nat {
    radix16(b.subrange(lo, hi)).unwrap()
}

/// Slicing `b[lo..hi]` fails, or it parses and a later step (`rest`) fails.
pub open spec fn seg_step_panics(b: Seq<u8>, lo: int, hi: int, rest: bool) -> bool {
    !sliceable(b, lo, hi) || (hex_seg_ok(b, lo, hi) && rest)
}

/// Character `k` is out of range, or it is `d` and a later step (`rest`) fails.
pub open spec fn delim_step_panics(c: Seq<char>, k: int, d: char, rest: bool) -> bool {
    c.len() <= k || (c[k] == d && rest)
}

pub open spec fn uuid_groups_tail_panics(b: Seq<u8>) -> bool {
    seg_step_panics(b, 19, 23, seg_step_panics(b, 24, 36, false))
}

/// Slicing one of the five groups would fail before a group fails to parse.
pub open spec fn uuid_groups_panic(b: Seq<u8>) -> bool {
    seg_step_panics(b, 0, 8, seg_step_panics(b, 9, 13, seg_step_panics(b, 14, 18, uuid_groups_tail_panics(b))))
}

/// Reading the text would reach an out-of-range character or an unsliceable group.
pub open spec fn uuid_parse_panics(c: Seq<char>) -> bool {
    encode_utf8(c).len() == 36 && delim_step_panics(c, 8, '-', delim_step_panics(c, 13, '-',
        delim_step_panics(c, 18, '-', delim_step_panics(c, 23, '-', uuid_groups_panic(encode_utf8(c))))))
}

pub open spec fn uuid_delims_ok(c: Seq<char>) -> bool {
    c[8] == '-' && c[13] == '-' && c[18] == '-' && c[23] == '-'
}

pub open spec fn uuid_groups_ok(b: Seq<u8>) -> bool {
    hex_seg_ok(b, 0, 8) && hex_seg_ok(b, 9, 13) && hex_seg_ok(b, 14, 18) && hex_seg_ok(b, 19, 23)
        && hex_seg_ok(b, 24, 36)
}

pub open spec fn uuid_groups_value(b: Seq<u8>) -> nat {
    hex_seg(b, 0, 8) * p96() + hex_seg(b, 9, 13) * p80() + hex_seg(b, 14, 18) * p64() + hex_seg(
        b,
        19,
        23,
    ) * p48() + hex_seg(b, 24, 36)
}

/// What reading a UUID from the text `c` gives: the text must be 36 bytes long, have `-`
/// at characters 8, 13, 18 and 23, and hold radix-16 numbers in the five groups.
pub open spec fn uuid_parse(c: Seq<char>) -> Result<UUID, IDParseError> {
    let b = encode_utf8(c);
    if b.len() != 36 {
        Err(IDParseError::InvalidLength)
    } else if !uuid_delims_ok(c) {
        Err(IDParseError::InvalidDelimiter)
    } else if !uuid_groups_ok(b) {
        Err(IDParseError::InvalidRadix)
    } else {
        Ok(UUID(uuid_groups_value(b) as u128))
    }
}

/// Every bit of a UUID but the 16 bits of a 16-bit alias.
pub open spec fn not_u16_alias_bits() -> u128 {
    0xFFFF0000FFFFFFFFFFFFFFFFFFFFFFFFu128
}

/// The 96 bits below a 32-bit alias.
pub open spec fn not_u32_alias_bits() -> u128 {
    0x00000000FFFFFFFFFFFFFFFFFFFFFFFFu128
}

/// The 16-bit alias of `u`: `u` is the UUID of that alias (its other bits are those of the
/// base UUID), else none.
pub open spec fn spec_short(u: u128) -> Option<u16> {
    if u & not_u16_alias_bits() == 0x0000000000001000800000805F9B34FBu128 {
        Some((u >> 96u128) as u16)
    } else {
        None
    }
}

/// The 32-bit alias of `u`: `u` is the UUID of that alias (its low 96 bits are those of the
/// base UUID), else none.
pub open spec fn spec_uint(u: u128) -> Option<u32> {
    if u & not_u32_alias_bits() == 0x0000000000001000800000805F9B34FBu128 {
        Some((u >> 96u128) as u32)
    } else {
        None
    }
}

/// The UUID for a 32-bit Bluetooth alias: `(u << 96) | BT_BASE_UUID`.
pub open spec fn alias_uuid(u: u32) -> UUID {
    UUID(((u as u128) << 96u128) | 0x0000000000001000800000805F9B34FBu128)
}

/// Whether slicing `s[lo..hi]` fails, or the slice parses and the later step `rest` fails.
pub(crate) fn seg_step_panics_exec(s: &str, lo: usize, hi: usize, rest: bool) -> (r: bool)
    requires
        lo <= hi <= s.spec_bytes().len(),
        hi - lo <= 12,
    ensures
        r == seg_step_panics(encode_utf8(s@), lo as int, hi as int, rest),
{
    if !(s.is_char_boundary(lo) && s.is_char_boundary(hi)) {
        return true;
    }
    let b = s.as_bytes();
    match parse_radix16(b, lo, hi) {
        Some(_) => rest,
        None => false,
    }
}

/// Whether `UUID::from_str` would slice `s` where it cannot be sliced (the reading of a
/// UUID that callers test before they hand it a text).
pub fn uuid_text_panics(s: &str) -> (r: bool)
    ensures
        r == uuid_parse_panics(s@),
{
    let b = s.as_bytes();
    if b.len() != 36 {
        return false;
    }
    let g = seg_step_panics_exec(s, 24, 36, false);
    let g = seg_step_panics_exec(s, 19, 23, g);
    let g = seg_step_panics_exec(s, 14, 18, g);
    let g = seg_step_panics_exec(s, 9, 13, g);
    let g = seg_step_panics_exec(s, 0, 8, g);
    let n = s.unicode_len();
    let d = if n <= 23 {
        true
    } else {
        s.get_char(23) == '-' && g
    };
    let d = if n <= 18 {
        true
    } else {
        s.get_char(18) == '-' && d
    };
    let d = if n <= 13 {
        true
    } else {
        s.get_char(13) == '-' && d
    };
    if n <= 8 {
        true
    } else {
        s.get_char(8) == '-' && d
    }
}

impl UUID {
    /// Reads a UUID from its text form.
    pub fn from_str(s: &str) -> (r: Result<UUID, IDParseError>)
        requires
            !uuid_parse_panics(s@),
        ensures
            r == uuid_parse(s@),
    {
        let b = s.as_bytes();
        let ghost c = s@;
        if b.len() != 36 {
            return Err(IDParseError::InvalidLength);
        }
        if s.get_char(8) != '-' {
            return Err(IDParseError::InvalidDelimiter);
        }
        if s.get_char(13) != '-' {
            return Err(IDParseError::InvalidDelimiter);
        }
        if s.get_char(18) != '-' {
            return Err(IDParseError::InvalidDelimiter);
        }
        if s.get_char(23) != '-' {
            return Err(IDParseError::InvalidDelimiter);
        }
        let first = match parse_radix16(b, 0, 8) {
            Some(v) => v,
            None => return Err(IDParseError::InvalidRadix),
        };
        let second = match parse_radix16(b, 9, 13) {
            Some(v) => v,
            None => return Err(IDParseError::InvalidRadix),
        };
        let third = match parse_radix16(b, 14, 18) {
            Some(v) => v,
            None => return Err(IDParseError::InvalidRadix),
        };
        let fourth = match parse_radix16(b, 19, 23) {
            Some(v) => v,
            None => return Err(IDParseError::InvalidRadix),
        };
        let fifth = match parse_radix16(b, 24, 36) {
            Some(v) => v,
            None => return Err(IDParseError::InvalidRadix),
        };
        proof {
            lemma_radix16_bound(b@.subrange(0, 8));
            lemma_radix16_bound(b@.subrange(9, 13));
            lemma_radix16_bound(b@.subrange(14, 18));
            lemma_radix16_bound(b@.subrange(19, 23));
            lemma_radix16_bound(b@.subrange(24, 36));
            reveal_with_fuel(pow16, 13);
        }
        let v = (first as u128) * 0x1_0000_0000_0000_0000_0000_0000u128 + (second as u128)
            * 0x1_0000_0000_0000_0000_0000u128 + (third as u128) * 0x1_0000_0000_0000_0000u128
            + (fourth as u128) * 0x1_0000_0000_0000u128 + (fifth as u128);
        Ok(UUID(v))
    }

    /// The canonical text of this UUID (lower-case hexadecimal).
    pub fn to_string(&self) -> (r: String)
        ensures
            r@ == uuid_text(self.0),
    {
        let u = self.0;
        let mut s = String::new();
        push_hex(&mut s, u / 0x1_0000_0000_0000_0000_0000_0000u128, 8, false);
        push_char(&mut s, '-');
        push_hex(&mut s, (u / 0x1_0000_0000_0000_0000_0000u128) % 0x10000, 4, false);
        push_char(&mut s, '-');
        push_hex(&mut s, (u / 0x1_0000_0000_0000_0000u128) % 0x10000, 4, false);
        push_char(&mut s, '-');
        push_hex(&mut s, (u / 0x1_0000_0000_0000u128) % 0x10000, 4, false);
        push_char(&mut s, '-');
        push_hex(&mut s, u % 0x1_0000_0000_0000u128, 12, false);
        assert(s@ =~= uuid_text(u));
        s
    }

    /// Get the 16-bit Bluetooth UUID alias for this `UUID`, if it is the UUID of one.
    pub fn short(&self) -> (r: Option<u16>)
        ensures
            r == spec_short(self.0),
    {
        if (self.0 & 0xFFFF0000FFFFFFFFFFFFFFFFFFFFFFFFu128) == 0x0000000000001000800000805F9B34FBu128 {
            Some((self.0 >> 96u128) as u16)
        } else {
            None
        }
    }

    /// Get the 32-bit Bluetooth UUID alias for this `UUID`, if it is the UUID of one.
    pub fn uint(&self) -> (r: Option<u32>)
        ensures
            r == spec_uint(self.0),
    {
        if (self.0 & 0x00000000FFFFFFFFFFFFFFFFFFFFFFFFu128) == 0x0000000000001000800000805F9B34FBu128 {
            Some((self.0 >> 96u128) as u32)
        } else {
            None
        }
    }

    /// Creates a `UUID` from a 16-bit Bluetooth UUID alias: `((u as u128) << 96) | BT_BASE_UUID`.
    pub fn from_u16(u: u16) -> (r: UUID)
        ensures
            r == alias_uuid(u as u32),
    {
        Self::from_u32(u as u32)
    }

    /// Creates a `UUID` from a 32-bit Bluetooth UUID alias: `((u as u128) << 96) | BT_BASE_UUID`.
    pub fn from_u32(u: u32) -> (r: UUID)
        ensures
            r == alias_uuid(u),
    {
        UUID(((u as u128) << 96u128) | 0x0000000000001000800000805F9B34FBu128)
    }
}

impl From<u16> for UUID {
    fn from(u: u16) -> (r: Self) {
        Self::from_u32(u as u32)
    }
}

impl vstd::std_specs::convert::FromSpecImpl<u16> for UUID {
    open spec fn obeys_from_spec() -> bool {
        true
    }

    open spec fn from_spec(u: u16) -> Self {
        alias_uuid(u as u32)
    }
}

impl From<u32> for UUID {
    fn from(u: u32) -> (r: Self) {
        Self::from_u32(u)
    }
}

impl vstd::std_specs::convert::FromSpecImpl<u32> for UUID {
    open spec fn obeys_from_spec() -> bool {
        true
    }

    open spec fn from_spec(u: u32) -> Self {
        alias_uuid(u)
    }
}

impl From<u128> for UUID {
    fn from(u: u128) -> (r: Self) {
        UUID(u)
    }
}

impl vstd::std_specs::convert::FromSpecImpl<u128> for UUID {
    open spec fn obeys_from_spec() -> bool {
        true
    }

    open spec fn from_spec(u: u128) -> Self {
        UUID(u)
    }
}

impl From<UUID> for u128 {
    fn from(u: UUID) -> (r: Self) {
        u.0
    }
}

impl vstd::std_specs::convert::FromSpecImpl<UUID> for u128 {
    open spec fn obeys_from_spec() -> bool {
        true
    }

    open spec fn from_spec(u: UUID) -> Self {
        u.0
    }
}

impl TryFrom<UUID> for u16 {
    type Error = OutOfRange;

    fn try_from(uuid: UUID) -> (r: Result<Self, Self::Error>) {
        match uuid.short() {
            Some(s) => Ok(s),
            None => Err(OutOfRange),
        }
    }
}

impl vstd::std_specs::convert::TryFromSpecImpl<UUID> for u16 {
    open spec fn obeys_try_from_spec() -> bool {
        true
    }

    open spec fn try_from_spec(uuid: UUID) -> Result<Self, Self::Error> {
        match spec_short(uuid.0) {
            Some(s) => Ok(s),
            None => Err(OutOfRange),
        }
    }
}

impl TryFrom<UUID> for u32 {
    type Error = OutOfRange;

    fn try_from(uuid: UUID) -> (r: Result<Self, Self::Error>) {
        match uuid.uint() {
            Some(s) => Ok(s),
            None => Err(OutOfRange),
        }
    }
}

impl vstd::std_specs::convert::TryFromSpecImpl<UUID> for u32 {
    open spec fn obeys_try_from_spec() -> bool {
        true
    }

    open spec fn try_from_spec(uuid: UUID) -> Result<Self, Self::Error> {
        match spec_uint(uuid.0) {
            Some(s) => Ok(s),
            None => Err(OutOfRange),
        }
    }
}

/// Checks that `uuid` is the text of a UUID (the same test that [`UUID::from_str`] makes).
pub fn validate_uuid(uuid: &str) -> (r: bool)
    requires
        !uuid_parse_panics(uuid@),
    ensures
        r == uuid_parse(uuid@) is Ok,
{
    UUID::from_str(uuid).is_ok()
}

/// The text of a UUID is ASCII, 36 characters long, and reads back as the same UUID.
pub proof fn lemma_uuid_text_roundtrip(u: u128)
    ensures
        is_ascii_chars(uuid_text(u)),
        uuid_text(u).len() == 36,
        !uuid_parse_panics(uuid_text(u)),
        uuid_parse(uuid_text(u)) == Ok::<UUID, IDParseError>(UUID(u)),
{
    let c = uuid_text(u);
    let f1 = u as nat / p96();
    let f2 = (u as nat / p80()) % 0x10000;
    let f3 = (u as nat / p64()) % 0x10000;
    let f4 = (u as nat / p48()) % 0x10000;
    let f5 = u as nat % p48();
    let h1 = hex_fmt(f1, 8, false);
    let h2 = hex_fmt(f2, 4, false);
    let h3 = hex_fmt(f3, 4, false);
    let h4 = hex_fmt(f4, 4, false);
    let h5 = hex_fmt(f5, 12, false);
    lemma_hex_fmt_chars(f1, 8, false);
    lemma_hex_fmt_chars(f2, 4, false);
    lemma_hex_fmt_chars(f3, 4, false);
    lemma_hex_fmt_chars(f4, 4, false);
    lemma_hex_fmt_chars(f5, 12, false);
    lemma_hex_fmt_len(f1, 8, false);
    lemma_hex_fmt_len(f2, 4, false);
    lemma_hex_fmt_len(f3, 4, false);
    lemma_hex_fmt_len(f4, 4, false);
    lemma_hex_fmt_len(f5, 12, false);
    assert(c.len() == 36);
    assert(c[8] == '-' && c[13] == '-' && c[18] == '-' && c[23] == '-');
    assert(is_ascii_chars(c)) by {
        assert forall|i: int| 0 <= i < c.len() implies '\0' <= #[trigger] c[i] <= '\u{7f}' by {
            if i < 8 {
                assert(c[i] == h1[i]);
            } else if i == 8 || i == 13 || i == 18 || i == 23 {
            } else if i < 13 {
                assert(c[i] == h2[i - 9]);
            } else if i < 18 {
                assert(c[i] == h3[i - 14]);
            } else if i < 23 {
                assert(c[i] == h4[i - 19]);
            } else {
                assert(c[i] == h5[i - 24]);
            }
        }
    }
    lemma_ascii_encoding(c);
    let b = encode_utf8(c);
    assert(b.subrange(0, 8) =~= ascii_bytes(h1));
    assert(b.subrange(9, 13) =~= ascii_bytes(h2));
    assert(b.subrange(14, 18) =~= ascii_bytes(h3));
    assert(b.subrange(19, 23) =~= ascii_bytes(h4));
    assert(b.subrange(24, 36) =~= ascii_bytes(h5));
    reveal_with_fuel(pow16, 13);
    assert(f1 < pow16(8));
    assert(f5 < pow16(12));
    lemma_hex_fmt_radix16(f1, 8, false);
    lemma_hex_fmt_radix16(f2, 4, false);
    lemma_hex_fmt_radix16(f3, 4, false);
    lemma_hex_fmt_radix16(f4, 4, false);
    lemma_hex_fmt_radix16(f5, 12, false);
    lemma_ascii_boundaries(c, 0);
    lemma_ascii_boundaries(c, 8);
    lemma_ascii_boundaries(c, 9);
    lemma_ascii_boundaries(c, 13);
    lemma_ascii_boundaries(c, 14);
    lemma_ascii_boundaries(c, 18);
    lemma_ascii_boundaries(c, 19);
    lemma_ascii_boundaries(c, 23);
    lemma_ascii_boundaries(c, 24);
    lemma_ascii_boundaries(c, 36);
    lemma_uuid_groups_recompose(u);
}

proof fn lemma_uuid_groups_recompose(u: u128)
    ensures
        (u as nat / p96()) * p96() + ((u as nat / p80()) % 0x10000) * p80() + ((u as nat / p64())
            % 0x10000) * p64() + ((u as nat / p48()) % 0x10000) * p48() + u as nat % p48()
            == u as nat,
{
    let x = u as nat;
    let q1 = x / p48();
    let q2 = q1 / 0x10000;
    let q3 = q2 / 0x10000;
    let q4 = q3 / 0x10000;
    vstd::arithmetic::div_mod::lemma_div_denominator(x as int, p48() as int, 0x10000);
    vstd::arithmetic::div_mod::lemma_div_denominator(x as int, p64() as int, 0x10000);
    vstd::arithmetic::div_mod::lemma_div_denominator(x as int, p80() as int, 0x10000);
    assert(x / p64() == q2);
    assert(x / p80() == q3);
    assert(x / p96() == q4);
    vstd::arithmetic::div_mod::lemma_fundamental_div_mod(x as int, p48() as int);
    vstd::arithmetic::div_mod::lemma_fundamental_div_mod(q1 as int, 0x10000);
    vstd::arithmetic::div_mod::lemma_fundamental_div_mod(q2 as int, 0x10000);
    vstd::arithmetic::div_mod::lemma_fundamental_div_mod(q3 as int, 0x10000);
}

/// A 16-bit alias read back from its UUID is the alias itself.
pub proof fn lemma_short_of_alias(u: u16)
    ensures
        spec_short(alias_uuid(u as u32).0) == Some(u),
        spec_uint(alias_uuid(u as u32).0) == Some(u as u32),
{
    let x: u128 = ((u as u32) as u128) << 96u128 | 0x0000000000001000800000805F9B34FBu128;
    assert(x & 0xFFFF0000FFFFFFFFFFFFFFFFFFFFFFFFu128 == 0x0000000000001000800000805F9B34FBu128
        && (x >> 96u128) as u16 == u && x & 0x00000000FFFFFFFFFFFFFFFFFFFFFFFFu128
        == 0x0000000000001000800000805F9B34FBu128 && (x >> 96u128) as u32 == u as u32)
        by (bit_vector)
        requires
            x == ((u as u32) as u128) << 96u128 | 0x0000000000001000800000805F9B34FBu128,
    ;
}

/// A 32-bit alias read back from its UUID is the alias itself.
pub proof fn lemma_uint_of_alias(u: u32)
    ensures
        spec_uint(alias_uuid(u).0) == Some(u),
{
    let x: u128 = (u as u128) << 96u128 | 0x0000000000001000800000805F9B34FBu128;
    assert(x & 0x00000000FFFFFFFFFFFFFFFFFFFFFFFFu128 == 0x0000000000001000800000805F9B34FBu128
        && (x >> 96u128) as u32 == u)
        by (bit_vector)
        requires
            x == (u as u128) << 96u128 | 0x0000000000001000800000805F9B34FBu128,
    ;
}

/// Only the UUID of an alias has one: a UUID whose 16-bit or 32-bit alias is read is the
/// UUID of that alias.
pub proof fn lemma_alias_of_short(u: u128)
    ensures
        spec_short(u) matches Some(x) ==> alias_uuid(x as u32) == UUID(u),
        spec_uint(u) matches Some(y) ==> alias_uuid(y) == UUID(u),
{
    assert(u & 0xFFFF0000FFFFFFFFFFFFFFFFFFFFFFFFu128 == 0x0000000000001000800000805F9B34FBu128
        ==> ((((u >> 96u128) as u16) as u32) as u128) << 96u128
        | 0x0000000000001000800000805F9B34FBu128 == u) by (bit_vector);
    assert(u & 0x00000000FFFFFFFFFFFFFFFFFFFFFFFFu128 == 0x0000000000001000800000805F9B34FBu128
        ==> (((u >> 96u128) as u32) as u128) << 96u128 | 0x0000000000001000800000805F9B34FBu128
        == u) by (bit_vector);
}

} // verus!
