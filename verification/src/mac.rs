//! MAC addresses of Bluetooth devices and their two textual forms.
use vstd::prelude::*;
use vstd::string::*;
use vstd::utf8::*;

use crate::error::IDParseError;
use crate::hex::{
    ascii_bytes, hex_fmt, lemma_ascii_boundaries, lemma_ascii_encoding, lemma_hex_fmt_chars,
    lemma_encode_len, lemma_hex_fmt_len, lemma_hex_fmt_radix16, lemma_radix16_bound, parse_radix16, pow16, push_char, radix16,
    push_hex,
};
use crate::uuid::{hex_seg, hex_seg_ok, seg_step_panics, seg_step_panics_exec, sliceable};

verus! {

/// Represents a MAC address used for Bluetooth devices: the first four octets and the
/// last two.
#[derive(PartialEq, Eq, Clone, Copy, Hash, Debug, Structural)]
pub struct MAC(pub u32, pub u16);

/// The six octets of a MAC address, most significant first.
pub open spec fn octets(hi: u32, lo: u16) -> Seq<nat> {
    seq![
        hi as nat / 0x1000000,
        (hi as nat / 0x10000) % 0x100,
        (hi as nat / 0x100) % 0x100,
        hi as nat % 0x100,
        lo as nat / 0x100,
        lo as nat % 0x100,
    ]
}

/// Two upper-case hexadecimal digits of an octet.
pub open spec fn octet_text(o: nat) -> Seq<char> {
    hex_fmt(o, 2, true)
}

/// The six octets of `(hi, lo)` in upper-case hexadecimal, each followed by `sep` but the last.
pub open spec fn octets_text(hi: u32, lo: u16, sep: char) -> Seq<char> {
    let o = octets(hi, lo);
    octet_text(o[0]) + seq![sep] + octet_text(o[1]) + seq![sep] + octet_text(o[2]) + seq![sep]
        + octet_text(o[3]) + seq![sep] + octet_text(o[4]) + seq![sep] + octet_text(o[5])
}

/// The display form `01:02:03:A0:B0:C0`.
pub open spec fn mac_text(hi: u32, lo: u16) -> Seq<char> {
    octets_text(hi, lo, ':')
}

/// The form used in Bluez object paths, `dev_01_02_03_A0_B0_C0`.
pub open spec fn mac_dev_text(hi: u32, lo: u16) -> Seq<char> {
    seq!['d', 'e', 'v', '_'] + octets_text(hi, lo, '_')
}

/// Every character that follows a multiple of three (positions 2, 5, 8, ...) is a `:`.
pub open spec fn mac_delims_ok(c: Seq<char>) -> bool {
    forall|k: int| 0 <= k < c.len() && k % 3 == 2 ==> #[trigger] c[k] == ':'
}

pub open spec fn mac_groups_tail_panics(b: Seq<u8>) -> bool {
    seg_step_panics(b, 9, 11, seg_step_panics(b, 12, 14, seg_step_panics(b, 15, 17, false)))
}

/// Slicing one of the six octets would fail before an octet fails to parse.
pub open spec fn mac_groups_panic(b: Seq<u8>) -> bool {
    seg_step_panics(b, 0, 2, seg_step_panics(b, 3, 5, seg_step_panics(b, 6, 8, mac_groups_tail_panics(b))))
}

/// Reading the display form of a MAC from `c` would slice the text where it cannot be sliced.
pub open spec fn mac_parse_panics(c: Seq<char>) -> bool {
    encode_utf8(c).len() == 17 && mac_delims_ok(c) && mac_groups_panic(encode_utf8(c))
}

pub open spec fn mac_groups_ok(b: Seq<u8>) -> bool {
    hex_seg_ok(b, 0, 2) && hex_seg_ok(b, 3, 5) && hex_seg_ok(b, 6, 8) && hex_seg_ok(b, 9, 11)
        && hex_seg_ok(b, 12, 14) && hex_seg_ok(b, 15, 17)
}

/// Whether `MAC::from_str` would slice `s` where it cannot be sliced (the reading of a MAC
/// that callers test before they hand it a text).
pub fn mac_text_panics(s: &str) -> (r: bool)
    ensures
        r == mac_parse_panics(s@),
{
    let b = s.as_bytes();
    if b.len() != 17 {
        return false;
    }
    let n = s.unicode_len();
    proof {
        lemma_encode_len(s@);
    }
    let mut k: usize = 2;
    while k < n
        invariant
            n == s@.len(),
            encode_utf8(s@).len() == 17,
            n <= 17,
            k <= n + 2,
            k % 3 == 2,
            forall|j: int| 0 <= j < k && j < n && j % 3 == 2 ==> #[trigger] s@[j] == ':',
        decreases n + 3 - k,
    {
        if s.get_char(k) != ':' {
            assert(!mac_delims_ok(s@));
            return false;
        }
        k = k + 3;
    }
    let g = seg_step_panics_exec(s, 15, 17, false);
    let g = seg_step_panics_exec(s, 12, 14, g);
    let g = seg_step_panics_exec(s, 9, 11, g);
    let g = seg_step_panics_exec(s, 6, 8, g);
    let g = seg_step_panics_exec(s, 3, 5, g);
    seg_step_panics_exec(s, 0, 2, g)
}

/// The MAC whose octets are the given six numbers.
pub open spec fn mac_of_octets(o0: nat, o1: nat, o2: nat, o3: nat, o4: nat, o5: nat) -> MAC {
    MAC((o0 * 0x1000000 + o1 * 0x10000 + o2 * 0x100 + o3) as u32, (o4 * 0x100 + o5) as u16)
}

/// What reading the display form of a MAC from the text `c` gives: it must be 17 bytes long,
/// have `:` at every third character starting with the third, and hold six radix-16 octets.
pub open spec fn mac_parse(c: Seq<char>) -> Result<MAC, IDParseError> {
    let b = encode_utf8(c);
    if b.len() != 17 {
        Err(IDParseError::InvalidLength)
    } else if !mac_delims_ok(c) {
        Err(IDParseError::InvalidDelimiter)
    } else if !mac_groups_ok(b) {
        Err(IDParseError::InvalidRadix)
    } else {
        Ok(
            mac_of_octets(
                hex_seg(b, 0, 2),
                hex_seg(b, 3, 5),
                hex_seg(b, 6, 8),
                hex_seg(b, 9, 11),
                hex_seg(b, 12, 14),
                hex_seg(b, 15, 17),
            ),
        )
    }
}

/// Octet `i` of the dev form can be sliced out and parsed (it lies at bytes `4 + 3i .. 6 + 3i`).
pub open spec fn dev_octet_ok(b: Seq<u8>, i: int) -> bool {
    6 + 3 * i <= b.len() && sliceable(b, 4 + 3 * i, 6 + 3 * i) && hex_seg_ok(b, 4 + 3 * i, 6 + 3 * i)
}

pub open spec fn dev_octet(b: Seq<u8>, i: int) -> nat {
    hex_seg(b, 4 + 3 * i, 6 + 3 * i)
}

/// What reading the object-path form of a MAC from `c` gives: the text must start with
/// `dev_`, and bytes `4 + 3i .. 6 + 3i` must hold the six octets; nothing else is checked.
pub open spec fn mac_dev_parse(c: Seq<char>) -> Option<MAC> {
    let b = encode_utf8(c);
    if b.len() >= 4 && b[0] == 0x64 && b[1] == 0x65 && b[2] == 0x76 && b[3] == 0x5f
        && dev_octet_ok(b, 0) && dev_octet_ok(b, 1) && dev_octet_ok(b, 2) && dev_octet_ok(b, 3)
        && dev_octet_ok(b, 4) && dev_octet_ok(b, 5) {
        Some(
            mac_of_octets(
                dev_octet(b, 0),
                dev_octet(b, 1),
                dev_octet(b, 2),
                dev_octet(b, 3),
                dev_octet(b, 4),
                dev_octet(b, 5),
            ),
        )
    } else {
        None
    }
}

impl MAC {
    /// The first four octets and the last two.
    pub open spec fn parts(self) -> (u32, u16) {
        (self.0, self.1)
    }

    /// Create a new MAC address from the number; the least significant 6 bytes are used.
    pub fn new(mac: u64) -> (r: Self)
        requires
            mac < 0x1_0000_0000_0000,
        ensures
            r.parts() == ((mac / 0x10000) as u32, (mac % 0x10000) as u16),
    {
        MAC((mac / 0x10000) as u32, (mac % 0x10000) as u16)
    }

    /// Create a new MAC from the first four octets and last two.
    pub fn from_parts(first_four: u32, last_two: u16) -> (r: Self)
        ensures
            r.parts() == (first_four, last_two),
    {
        MAC(first_four, last_two)
    }

    /// Creates a MAC from a pair of first four octets and last two.
    pub fn from_pair(pair: (u32, u16)) -> (r: Self)
        ensures
            r.parts() == pair,
    {
        MAC(pair.0, pair.1)
    }

    /// The display form, e.g. `01:02:03:A0:B0:C0`.
    pub fn to_string(&self) -> (r: String)
        ensures
            r@ == mac_text(self.parts().0, self.parts().1),
    {
        let mut s = String::new();
        self.push_octets(&mut s, ':');
        s
    }

    /// The form used in Bluez object paths, e.g. `dev_01_02_03_A0_B0_C0`.
    pub fn to_dev_str(&self) -> (r: String)
        ensures
            r@ == mac_dev_text(self.parts().0, self.parts().1),
    {
        let mut s = String::new();
        push_char(&mut s, 'd');
        push_char(&mut s, 'e');
        push_char(&mut s, 'v');
        push_char(&mut s, '_');
        self.push_octets(&mut s, '_');
        assert(s@ =~= mac_dev_text(self.0, self.1));
        s
    }

    fn push_octets(&self, s: &mut String, sep: char)
        ensures
            final(s)@ == old(s)@ + octets_text(self.0, self.1, sep),
    {
        let a = self.0 as u128;
        let b = self.1 as u128;
        push_hex(s, a / 0x1000000, 2, true);
        push_char(s, sep);
        push_hex(s, (a / 0x10000) % 0x100, 2, true);
        push_char(s, sep);
        push_hex(s, (a / 0x100) % 0x100, 2, true);
        push_char(s, sep);
        push_hex(s, a % 0x100, 2, true);
        push_char(s, sep);
        push_hex(s, b / 0x100, 2, true);
        push_char(s, sep);
        push_hex(s, b % 0x100, 2, true);
        assert(final(s)@ =~= old(s)@ + octets_text(self.0, self.1, sep));
    }

    /// Reads the display form of a MAC.
    pub fn from_str(s: &str) -> (r: Result<MAC, IDParseError>)
        requires
            !mac_parse_panics(s@),
        ensures
            r == mac_parse(s@),
    {
        let b = s.as_bytes();
        if b.len() != 17 {
            return Err(IDParseError::InvalidLength);
        }
        let n = s.unicode_len();
        proof {
            lemma_encode_len(s@);
        }
        let mut k: usize = 2;
        while k < n
            invariant
                n == s@.len(),
                encode_utf8(s@).len() == 17,
                n <= 17,
                k <= n + 2,
                k % 3 == 2,
                forall|j: int| 0 <= j < k && j < n && j % 3 == 2 ==> #[trigger] s@[j] == ':',
            decreases n + 3 - k,
        {
            if s.get_char(k) != ':' {
                assert(!mac_delims_ok(s@));
                return Err(IDParseError::InvalidDelimiter);
            }
            k = k + 3;
        }
        let o0 = match parse_radix16(b, 0, 2) {
            Some(v) => v,
            None => return Err(IDParseError::InvalidRadix),
        };
        let o1 = match parse_radix16(b, 3, 5) {
            Some(v) => v,
            None => return Err(IDParseError::InvalidRadix),
        };
        let o2 = match parse_radix16(b, 6, 8) {
            Some(v) => v,
            None => return Err(IDParseError::InvalidRadix),
        };
        let o3 = match parse_radix16(b, 9, 11) {
            Some(v) => v,
            None => return Err(IDParseError::InvalidRadix),
        };
        let o4 = match parse_radix16(b, 12, 14) {
            Some(v) => v,
            None => return Err(IDParseError::InvalidRadix),
        };
        let o5 = match parse_radix16(b, 15, 17) {
            Some(v) => v,
            None => return Err(IDParseError::InvalidRadix),
        };
        proof {
            lemma_radix16_bound(b@.subrange(0, 2));
            lemma_radix16_bound(b@.subrange(3, 5));
            lemma_radix16_bound(b@.subrange(6, 8));
            lemma_radix16_bound(b@.subrange(9, 11));
            lemma_radix16_bound(b@.subrange(12, 14));
            lemma_radix16_bound(b@.subrange(15, 17));
            reveal_with_fuel(pow16, 3);
        }
        Ok(
            MAC(
                (o0 * 0x1000000 + o1 * 0x10000 + o2 * 0x100 + o3) as u32,
                (o4 * 0x100 + o5) as u16,
            ),
        )
    }

    /// Reads the object-path form of a MAC (`dev_XX_XX_XX_XX_XX_XX`).
    pub fn from_dev_str(child: &str) -> (r: Option<MAC>)
        ensures
            r == mac_dev_parse(child@),
    {
        let b = child.as_bytes();
        if !(b.len() >= 4 && b[0] == 0x64 && b[1] == 0x65 && b[2] == 0x76 && b[3] == 0x5f) {
            return None;
        }
        let o0 = match parse_dev_octet(child, b, 0) {
            Some(v) => v,
            None => return None,
        };
        let o1 = match parse_dev_octet(child, b, 1) {
            Some(v) => v,
            None => return None,
        };
        let o2 = match parse_dev_octet(child, b, 2) {
            Some(v) => v,
            None => return None,
        };
        let o3 = match parse_dev_octet(child, b, 3) {
            Some(v) => v,
            None => return None,
        };
        let o4 = match parse_dev_octet(child, b, 4) {
            Some(v) => v,
            None => return None,
        };
        let o5 = match parse_dev_octet(child, b, 5) {
            Some(v) => v,
            None => return None,
        };
        Some(MAC((o0 * 0x1000000 + o1 * 0x10000 + o2 * 0x100 + o3) as u32, (o4 * 0x100 + o5) as u16))
    }
}

/// Reads octet `i` of the object-path form of a MAC, at bytes `4 + 3i .. 6 + 3i`.
fn parse_dev_octet(child: &str, b: &[u8], i: usize) -> (r: Option<u64>)
    requires
        b@ == encode_utf8(child@),
        i < 6,
    ensures
        match r {
            Some(v) => dev_octet_ok(b@, i as int) && v == dev_octet(b@, i as int) && v < 0x100,
            None => !dev_octet_ok(b@, i as int),
        },
{
    let lo = 4 + 3 * i;
    let hi = 6 + 3 * i;
    if !(hi <= b.len() && child.is_char_boundary(lo) && child.is_char_boundary(hi)) {
        return None;
    }
    let v = match parse_radix16(b, lo, hi) {
        Some(v) => v,
        None => return None,
    };
    proof {
        lemma_radix16_bound(b@.subrange(lo as int, hi as int));
        reveal_with_fuel(pow16, 3);
    }
    Some(v)
}

impl From<(u32, u16)> for MAC {
    fn from(pair: (u32, u16)) -> (r: Self) {
        MAC(pair.0, pair.1)
    }
}

impl vstd::std_specs::convert::FromSpecImpl<(u32, u16)> for MAC {
    open spec fn obeys_from_spec() -> bool {
        true
    }

    open spec fn from_spec(pair: (u32, u16)) -> Self {
        MAC(pair.0, pair.1)
    }
}

proof fn lemma_octets_recompose(hi: u32, lo: u16)
    ensures
        ({
            let o = octets(hi, lo);
            mac_of_octets(o[0], o[1], o[2], o[3], o[4], o[5]) == MAC(hi, lo)
        }),
{
    let x = hi as nat;
    vstd::arithmetic::div_mod::lemma_div_denominator(x as int, 0x100, 0x100);
    vstd::arithmetic::div_mod::lemma_div_denominator(x as int, 0x10000, 0x100);
    vstd::arithmetic::div_mod::lemma_fundamental_div_mod(x as int, 0x100);
    vstd::arithmetic::div_mod::lemma_fundamental_div_mod((x / 0x100) as int, 0x100);
    vstd::arithmetic::div_mod::lemma_fundamental_div_mod((x / 0x10000) as int, 0x100);
    vstd::arithmetic::div_mod::lemma_fundamental_div_mod(lo as int, 0x100);
}

/// The two bytes of octet `i` in the rendering of the six octets.
spec fn octet_slot(b: Seq<u8>, i: int) -> Seq<u8> {
    b.subrange(3 * i, 3 * i + 2)
}

/// Facts about the rendering of the six octets shared by both textual forms.
proof fn lemma_octets_text(hi: u32, lo: u16, sep: char)
    requires
        '\0' <= sep <= '\u{7f}',
    ensures
        ({
            let c = octets_text(hi, lo, sep);
            let o = octets(hi, lo);
            &&& c.len() == 17
            &&& is_ascii_chars(c)
            &&& forall|k: int| 0 <= k < 17 && k % 3 == 2 ==> #[trigger] c[k] == sep
            &&& forall|i: int|
                0 <= i < 6 ==> #[trigger] octet_slot(ascii_bytes(c), i) == ascii_bytes(
                    octet_text(o[i]),
                )
            &&& forall|i: int|
                0 <= i < 6 ==> radix16(#[trigger] ascii_bytes(octet_text(o[i]))) == Some(o[i])
        }),
{
    let c = octets_text(hi, lo, sep);
    let o = octets(hi, lo);
    reveal_with_fuel(pow16, 3);
    assert forall|i: int| 0 <= i < 6 implies o[i] < pow16(2) by {}
    let h0 = octet_text(o[0]);
    let h1 = octet_text(o[1]);
    let h2 = octet_text(o[2]);
    let h3 = octet_text(o[3]);
    let h4 = octet_text(o[4]);
    let h5 = octet_text(o[5]);
    lemma_hex_fmt_len(o[0], 2, true);
    lemma_hex_fmt_len(o[1], 2, true);
    lemma_hex_fmt_len(o[2], 2, true);
    lemma_hex_fmt_len(o[3], 2, true);
    lemma_hex_fmt_len(o[4], 2, true);
    lemma_hex_fmt_len(o[5], 2, true);
    lemma_hex_fmt_chars(o[0], 2, true);
    lemma_hex_fmt_chars(o[1], 2, true);
    lemma_hex_fmt_chars(o[2], 2, true);
    lemma_hex_fmt_chars(o[3], 2, true);
    lemma_hex_fmt_chars(o[4], 2, true);
    lemma_hex_fmt_chars(o[5], 2, true);
    assert(c.len() == 17);
    assert forall|k: int| 0 <= k < 17 && k % 3 == 2 implies #[trigger] c[k] == sep by {}
    assert(is_ascii_chars(c)) by {
        assert forall|k: int| 0 <= k < c.len() implies '\0' <= #[trigger] c[k] <= '\u{7f}' by {
            if k % 3 == 2 {
            } else if k < 2 {
                assert(c[k] == h0[k]);
            } else if k < 5 {
                assert(c[k] == h1[k - 3]);
            } else if k < 8 {
                assert(c[k] == h2[k - 6]);
            } else if k < 11 {
                assert(c[k] == h3[k - 9]);
            } else if k < 14 {
                assert(c[k] == h4[k - 12]);
            } else {
                assert(c[k] == h5[k - 15]);
            }
        }
    }
    let b = ascii_bytes(c);
    assert(b.subrange(0, 2) =~= ascii_bytes(h0));
    assert(b.subrange(3, 5) =~= ascii_bytes(h1));
    assert(b.subrange(6, 8) =~= ascii_bytes(h2));
    assert(b.subrange(9, 11) =~= ascii_bytes(h3));
    assert(b.subrange(12, 14) =~= ascii_bytes(h4));
    assert(b.subrange(15, 17) =~= ascii_bytes(h5));
    lemma_hex_fmt_radix16(o[0], 2, true);
    lemma_hex_fmt_radix16(o[1], 2, true);
    lemma_hex_fmt_radix16(o[2], 2, true);
    lemma_hex_fmt_radix16(o[3], 2, true);
    lemma_hex_fmt_radix16(o[4], 2, true);
    lemma_hex_fmt_radix16(o[5], 2, true);
    assert forall|i: int| 0 <= i < 6 implies #[trigger] octet_slot(ascii_bytes(c), i)
        == ascii_bytes(octet_text(o[i])) by {
        if i == 0 {
        } else if i == 1 {
        } else if i == 2 {
        } else if i == 3 {
        } else if i == 4 {
        } else {
        }
    }
}

/// The display form of a MAC is ASCII and reads back as the same MAC.
pub proof fn lemma_mac_text_roundtrip(m: MAC)
    ensures
        is_ascii_chars(mac_text(m.parts().0, m.parts().1)),
        !mac_parse_panics(mac_text(m.parts().0, m.parts().1)),
        mac_parse(mac_text(m.parts().0, m.parts().1)) == Ok::<MAC, IDParseError>(m),
{
    let c = mac_text(m.0, m.1);
    lemma_octets_text(m.0, m.1, ':');
    lemma_ascii_encoding(c);
    let b = encode_utf8(c);
    let o = octets(m.0, m.1);
    assert(octet_slot(b, 0) == ascii_bytes(octet_text(o[0])));
    assert(octet_slot(b, 1) == ascii_bytes(octet_text(o[1])));
    assert(octet_slot(b, 2) == ascii_bytes(octet_text(o[2])));
    assert(octet_slot(b, 3) == ascii_bytes(octet_text(o[3])));
    assert(octet_slot(b, 4) == ascii_bytes(octet_text(o[4])));
    assert(octet_slot(b, 5) == ascii_bytes(octet_text(o[5])));
    assert(radix16(ascii_bytes(octet_text(o[0]))) == Some(o[0]));
    assert(radix16(ascii_bytes(octet_text(o[1]))) == Some(o[1]));
    assert(radix16(ascii_bytes(octet_text(o[2]))) == Some(o[2]));
    assert(radix16(ascii_bytes(octet_text(o[3]))) == Some(o[3]));
    assert(radix16(ascii_bytes(octet_text(o[4]))) == Some(o[4]));
    assert(radix16(ascii_bytes(octet_text(o[5]))) == Some(o[5]));
    assert(mac_groups_ok(b));
    assert(mac_delims_ok(c));
    lemma_ascii_boundaries(c, 0);
    lemma_ascii_boundaries(c, 2);
    lemma_ascii_boundaries(c, 3);
    lemma_ascii_boundaries(c, 5);
    lemma_ascii_boundaries(c, 6);
    lemma_ascii_boundaries(c, 8);
    lemma_ascii_boundaries(c, 9);
    lemma_ascii_boundaries(c, 11);
    lemma_ascii_boundaries(c, 12);
    lemma_ascii_boundaries(c, 14);
    lemma_ascii_boundaries(c, 15);
    lemma_ascii_boundaries(c, 17);
    lemma_octets_recompose(m.0, m.1);
}

/// The object-path form of a MAC is ASCII and reads back as the same MAC.
pub proof fn lemma_mac_dev_text_roundtrip(m: MAC)
    ensures
        is_ascii_chars(mac_dev_text(m.parts().0, m.parts().1)),
        mac_dev_parse(mac_dev_text(m.parts().0, m.parts().1)) == Some(m),
{
    let t = octets_text(m.0, m.1, '_');
    let c = mac_dev_text(m.0, m.1);
    lemma_octets_text(m.0, m.1, '_');
    assert(c.len() == 21);
    assert(is_ascii_chars(c)) by {
        assert forall|k: int| 0 <= k < c.len() implies '\0' <= #[trigger] c[k] <= '\u{7f}' by {
            if k >= 4 {
                assert(c[k] == t[k - 4]);
            }
        }
    }
    lemma_ascii_encoding(c);
    let b = encode_utf8(c);
    let o = octets(m.0, m.1);
    assert forall|i: int| 0 <= i < 6 implies dev_octet_ok(b, i) && #[trigger] dev_octet(b, i)
        == o[i] by {
        assert(b.subrange(4 + 3 * i, 6 + 3 * i) =~= ascii_bytes(t).subrange(3 * i, 3 * i + 2));
        assert(octet_slot(ascii_bytes(t), i) == ascii_bytes(octet_text(o[i])));
        assert(radix16(ascii_bytes(octet_text(o[i]))) == Some(o[i]));
        lemma_ascii_boundaries(c, 4 + 3 * i);
        lemma_ascii_boundaries(c, 6 + 3 * i);
    }
    assert(dev_octet(b, 0) == o[0] && dev_octet(b, 1) == o[1] && dev_octet(b, 2) == o[2]);
    assert(dev_octet(b, 3) == o[3] && dev_octet(b, 4) == o[4] && dev_octet(b, 5) == o[5]);
    lemma_octets_recompose(m.0, m.1);
}

} // verus!
