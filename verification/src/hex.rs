//! Radix-16 and radix-10 digit strings: what the identifiers of this crate are
//! parsed from and printed as.
use vstd::prelude::*;
use vstd::string::*;
use vstd::utf8::*;

verus! {

/// `16^n`.
pub open spec fn pow16(n: nat) -> nat
    decreases n,
{
    if n == 0 {
        1
    } else {
        16 * pow16((n - 1) as nat)
    }
}

pub open spec fn is_hex_byte(c: u8) -> bool {
    (0x30 <= c && c <= 0x39) || (0x41 <= c && c <= 0x46) || (0x61 <= c && c <= 0x66)
}

pub open spec fn hex_byte_value(c: u8) -> nat {
    if c <= 0x39 {
        (c - 0x30) as nat
    } else if c <= 0x46 {
        (c - 0x37) as nat
    } else {
        (c - 0x57) as nat
    }
}

pub open spec fn all_hex(s: Seq<u8>) -> bool {
    forall|i: int| 0 <= i < s.len() ==> is_hex_byte(#[trigger] s[i])
}

/// The number that the hexadecimal digits `s` denote (most significant first).
pub open spec fn hex_value(s: Seq<u8>) -> nat
    decreases s.len(),
{
    if s.len() == 0 {
        0
    } else {
        hex_value(s.drop_last()) * 16 + hex_byte_value(s.last())
    }
}

/// What parsing an unsigned integer in radix 16 yields (`from_str_radix(s, 16)` on a wide
/// enough type): an optional `+` sign followed by at least one hexadecimal digit.
pub open spec fn radix16(s: Seq<u8>) -> Option<nat> {
    if s.len() == 0 {
        None
    } else if s[0] == 0x2b {
        if s.len() > 1 && all_hex(s.drop_first()) {
            Some(hex_value(s.drop_first()))
        } else {
            None
        }
    } else if all_hex(s) {
        Some(hex_value(s))
    } else {
        None
    }
}

pub open spec fn is_dec_byte(c: u8) -> bool {
    0x30 <= c && c <= 0x39
}

pub open spec fn all_dec(s: Seq<u8>) -> bool {
    forall|i: int| 0 <= i < s.len() ==> is_dec_byte(#[trigger] s[i])
}

/// The number that the decimal digits `s` denote (most significant first).
pub open spec fn dec_value(s: Seq<u8>) -> nat
    decreases s.len(),
{
    if s.len() == 0 {
        0
    } else {
        dec_value(s.drop_last()) * 10 + (s.last() - 0x30) as nat
    }
}

/// What parsing a `u8` in radix 10 yields (`u8::from_str`): an optional `+` sign, then at
/// least one decimal digit, denoting at most 255.
pub open spec fn radix10_u8(s: Seq<u8>) -> Option<nat> {
    let digits = if s.len() > 0 && s[0] == 0x2b {
        s.drop_first()
    } else {
        s
    };
    if s.len() == 0 || digits.len() == 0 || !all_dec(digits) || dec_value(digits) > 255 {
        None
    } else {
        Some(dec_value(digits))
    }
}

/// The digit character for `d < 16`, in lower or upper case.
pub open spec fn hex_char(d: nat, upper: bool) -> char {
    if d < 10 {
        (48 + d) as char
    } else if upper {
        (55 + d) as char
    } else {
        (87 + d) as char
    }
}

/// The last `w` hexadecimal digits of `v`, zero padded (as `{:0w$x}` prints a `v < 16^w`).
pub open spec fn hex_fmt(v: nat, w: nat, upper: bool) -> Seq<char>
    decreases w,
{
    if w == 0 {
        Seq::empty()
    } else {
        hex_fmt(v / 16, (w - 1) as nat, upper).push(hex_char(v % 16, upper))
    }
}

/// The number of hexadecimal digits of `v` (at least one).
pub open spec fn hex_len(v: nat) -> nat
    decreases v,
{
    if v < 16 {
        1
    } else {
        1 + hex_len(v / 16)
    }
}

/// `v` in lower-case hexadecimal, zero padded to at least `w` digits (as `{:0w$x}` prints).
pub open spec fn hex_fmt_min(v: nat, w: nat) -> Seq<char> {
    if hex_len(v) > w {
        hex_fmt(v, hex_len(v), false)
    } else {
        hex_fmt(v, w, false)
    }
}

/// `v` in decimal without padding (as `{}` prints an unsigned integer).
pub open spec fn dec_fmt(v: nat) -> Seq<char>
    decreases v,
{
    if v < 10 {
        seq![(48 + v) as char]
    } else {
        dec_fmt(v / 10).push((48 + v % 10) as char)
    }
}

/// The bytes of a text made of ASCII characters.
pub open spec fn ascii_bytes(cs: Seq<char>) -> Seq<u8> {
    Seq::new(cs.len(), |i: int| cs[i] as u8)
}

pub proof fn lemma_pow16_pos(n: nat)
    ensures
        pow16(n) >= 1,
    decreases n,
{
    if n > 0 {
        lemma_pow16_pos((n - 1) as nat);
    }
}

pub proof fn lemma_pow16_mono(a: nat, b: nat)
    requires
        a <= b,
    ensures
        pow16(a) <= pow16(b),
    decreases b,
{
    if a < b {
        lemma_pow16_mono(a, (b - 1) as nat);
        lemma_pow16_pos((b - 1) as nat);
    }
}

pub proof fn lemma_hex_value_bound(s: Seq<u8>)
    requires
        all_hex(s),
    ensures
        hex_value(s) < pow16(s.len()),
    decreases s.len(),
{
    if s.len() > 0 {
        let p = s.drop_last();
        assert(all_hex(p)) by {
            assert forall|i: int| 0 <= i < p.len() implies is_hex_byte(#[trigger] p[i]) by {
                assert(p[i] == s[i]);
            }
        }
        lemma_hex_value_bound(p);
        assert(is_hex_byte(s[s.len() - 1]));
    }
}

pub proof fn lemma_radix16_bound(s: Seq<u8>)
    requires
        radix16(s) is Some,
    ensures
        radix16(s).unwrap() < pow16(s.len()),
{
    if s[0] == 0x2b {
        lemma_hex_value_bound(s.drop_first());
        lemma_pow16_mono((s.len() - 1) as nat, s.len());
    } else {
        lemma_hex_value_bound(s);
    }
}

pub proof fn lemma_hex_fmt_len(v: nat, w: nat, upper: bool)
    ensures
        hex_fmt(v, w, upper).len() == w,
    decreases w,
{
    if w > 0 {
        lemma_hex_fmt_len(v / 16, (w - 1) as nat, upper);
    }
}

/// Every character of a hexadecimal rendering is an ASCII hexadecimal digit.
pub proof fn lemma_hex_fmt_chars(v: nat, w: nat, upper: bool)
    ensures
        forall|i: int|
            0 <= i < hex_fmt(v, w, upper).len() ==> is_hex_byte(
                #[trigger] hex_fmt(v, w, upper)[i] as u8,
            ),
        is_ascii_chars(hex_fmt(v, w, upper)),
    decreases w,
{
    lemma_hex_fmt_len(v, w, upper);
    if w > 0 {
        lemma_hex_fmt_chars(v / 16, (w - 1) as nat, upper);
        let prev = hex_fmt(v / 16, (w - 1) as nat, upper);
        let cur = hex_fmt(v, w, upper);
        assert forall|i: int| 0 <= i < cur.len() implies is_hex_byte(#[trigger] cur[i] as u8)
            && '\0' <= cur[i] <= '\u{7f}' by {
            if i < prev.len() {
                assert(cur[i] == prev[i]);
            } else {
                assert(cur[i] == hex_char(v % 16, upper));
            }
        }
    }
}

/// Reading back the hexadecimal rendering of `v` yields `v`.
pub proof fn lemma_hex_fmt_value(v: nat, w: nat, upper: bool)
    requires
        v < pow16(w),
    ensures
        hex_value(ascii_bytes(hex_fmt(v, w, upper))) == v,
    decreases w,
{
    let cur = hex_fmt(v, w, upper);
    lemma_hex_fmt_len(v, w, upper);
    if w == 0 {
        assert(ascii_bytes(cur).len() == 0);
    } else {
        let prev = hex_fmt(v / 16, (w - 1) as nat, upper);
        lemma_hex_fmt_len(v / 16, (w - 1) as nat, upper);
        assert(v / 16 < pow16((w - 1) as nat));
        lemma_hex_fmt_value(v / 16, (w - 1) as nat, upper);
        assert(ascii_bytes(cur).drop_last() =~= ascii_bytes(prev));
        let d = v % 16;
        assert(ascii_bytes(cur).last() == hex_char(d, upper) as u8);
        assert(hex_byte_value(hex_char(d, upper) as u8) == d);
    }
}

/// The rendering of `v` with `w` digits is a valid radix-16 number denoting `v`.
pub proof fn lemma_hex_fmt_radix16(v: nat, w: nat, upper: bool)
    requires
        v < pow16(w),
        w > 0,
    ensures
        radix16(ascii_bytes(hex_fmt(v, w, upper))) == Some(v),
{
    let b = ascii_bytes(hex_fmt(v, w, upper));
    lemma_hex_fmt_len(v, w, upper);
    lemma_hex_fmt_chars(v, w, upper);
    lemma_hex_fmt_value(v, w, upper);
    assert(all_hex(b)) by {
        assert forall|i: int| 0 <= i < b.len() implies is_hex_byte(#[trigger] b[i]) by {
            assert(b[i] == hex_fmt(v, w, upper)[i] as u8);
        }
    }
    assert(b[0] != 0x2b);
}

/// The UTF-8 encoding of ASCII text is its byte-per-character form.
pub proof fn lemma_ascii_encoding(cs: Seq<char>)
    requires
        is_ascii_chars(cs),
    ensures
        encode_utf8(cs) == ascii_bytes(cs),
{
    is_ascii_chars_encode_utf8(cs);
    assert(encode_utf8(cs) =~= ascii_bytes(cs));
}

/// A text never has more characters than its encoding has bytes.
pub proof fn lemma_encode_len(cs: Seq<char>)
    ensures
        cs.len() <= encode_utf8(cs).len(),
    decreases cs.len(),
{
    if cs.len() > 0 {
        lemma_encode_len(cs.drop_first());
        assert(encode_scalar(cs[0] as u32).len() >= 1);
    }
}

/// Every position of an ASCII text's encoding lies on a character boundary.
pub proof fn lemma_ascii_boundaries(cs: Seq<char>, i: int)
    requires
        is_ascii_chars(cs),
        0 <= i <= cs.len(),
    ensures
        is_char_boundary(encode_utf8(cs), i),
{
    lemma_ascii_encoding(cs);
    let b = encode_utf8(cs);
    encode_utf8_valid_utf8(cs);
    if i == cs.len() {
        is_char_boundary_start_end_of_seq(b);
    } else {
        is_char_boundary_iff_not_is_continuation_byte(b, i);
        assert(b[i] == cs[i] as u8);
        assert(cs[i] as u8 <= 127) by {
            assert('\0' <= cs[i] <= '\u{7f}');
        }
    }
}

/// Parses `b[lo..hi]` in radix 16 (at most twelve bytes).
pub(crate) fn parse_radix16(b: &[u8], lo: usize, hi: usize) -> (r: Option<u64>)
    requires
        lo <= hi <= b@.len(),
        hi - lo <= 12,
    ensures
        match r {
            Some(v) => radix16(b@.subrange(lo as int, hi as int)) == Some(v as nat),
            None => radix16(b@.subrange(lo as int, hi as int)) is None,
        },
{
    let ghost s = b@.subrange(lo as int, hi as int);
    if hi == lo {
        return None;
    }
    let mut start = lo;
    if b[lo] == 0x2b {
        if hi - lo == 1 {
            return None;
        }
        start = lo + 1;
        assert(s.drop_first() =~= b@.subrange(start as int, hi as int));
    }
    let ghost digits = b@.subrange(start as int, hi as int);
    let mut v: u64 = 0;
    let mut i = start;
    proof {
        lemma_pow16_pos(0);
    }
    while i < hi
        invariant
            lo <= start <= i <= hi <= b@.len(),
            hi - start <= 12,
            digits == b@.subrange(start as int, hi as int),
            s == b@.subrange(lo as int, hi as int),
            s.len() > 0,
            start == lo ==> s[0] != 0x2b,
            start != lo ==> start == lo + 1 && s[0] == 0x2b && s.len() > 1 && digits == s.drop_first(),
            all_hex(b@.subrange(start as int, i as int)),
            v == hex_value(b@.subrange(start as int, i as int)),
            v < pow16((i - start) as nat),
        decreases hi - i,
    {
        let c = b[i];
        let ok = (0x30 <= c && c <= 0x39) || (0x41 <= c && c <= 0x46) || (0x61 <= c && c <= 0x66);
        if !ok {
            assert(!is_hex_byte(digits[i - start]));
            assert(!all_hex(digits));
            assert(start == lo ==> digits =~= s);
            return None;
        }
        let d: u64 = if c <= 0x39 {
            (c - 0x30) as u64
        } else if c <= 0x46 {
            (c - 0x37) as u64
        } else {
            (c - 0x57) as u64
        };
        proof {
            lemma_pow16_mono((i + 1 - start) as nat, 12);
            assert(pow16(12) == 0x1_0000_0000_0000nat) by { reveal_with_fuel(pow16, 17); }
            let nx = b@.subrange(start as int, i + 1);
            assert(nx.drop_last() =~= b@.subrange(start as int, i as int));
            assert(nx.last() == c);
            assert(all_hex(nx)) by {
                assert forall|j: int| 0 <= j < nx.len() implies is_hex_byte(#[trigger] nx[j]) by {
                    if j < nx.len() - 1 {
                        assert(nx[j] == b@.subrange(start as int, i as int)[j]);
                    }
                }
            }
        }
        v = v * 16 + d;
        i = i + 1;
    }
    assert(b@.subrange(start as int, i as int) =~= digits);
    Some(v)
}

/// Parses `b[lo..hi]` as a decimal `u8` (as `u8::from_str` does).
pub fn parse_dec_u8(b: &[u8], lo: usize, hi: usize) -> (r: Option<u8>)
    requires
        lo <= hi <= b@.len(),
    ensures
        match r {
            Some(v) => radix10_u8(b@.subrange(lo as int, hi as int)) == Some(v as nat),
            None => radix10_u8(b@.subrange(lo as int, hi as int)) is None,
        },
{
    let ghost s = b@.subrange(lo as int, hi as int);
    if hi == lo {
        return None;
    }
    let mut start = lo;
    if b[lo] == 0x2b {
        start = lo + 1;
        assert(s.drop_first() =~= b@.subrange(start as int, hi as int));
    }
    let ghost digits = b@.subrange(start as int, hi as int);
    if start == hi {
        return None;
    }
    let mut v: u32 = 0;
    let mut i = start;
    while i < hi
        invariant
            lo <= start <= i <= hi <= b@.len(),
            digits == b@.subrange(start as int, hi as int),
            s == b@.subrange(lo as int, hi as int),
            s.len() > 0,
            digits.len() > 0,
            start == lo ==> s[0] != 0x2b,
            start != lo ==> start == lo + 1 && s[0] == 0x2b && digits == s.drop_first(),
            all_dec(b@.subrange(start as int, i as int)),
            v == dec_value(b@.subrange(start as int, i as int)),
            v <= 255,
        decreases hi - i,
    {
        let c = b[i];
        if !(0x30 <= c && c <= 0x39) {
            assert(!is_dec_byte(digits[i - start]));
            assert(start == lo ==> digits =~= s);
            return None;
        }
        let nv = v * 10 + (c - 0x30) as u32;
        let ghost nx = b@.subrange(start as int, i + 1);
        proof {
            assert(nx.drop_last() =~= b@.subrange(start as int, i as int));
            assert(nx.last() == c);
            assert(all_dec(nx)) by {
                assert forall|j: int| 0 <= j < nx.len() implies is_dec_byte(#[trigger] nx[j]) by {
                    if j < nx.len() - 1 {
                        assert(nx[j] == b@.subrange(start as int, i as int)[j]);
                    }
                }
            }
        }
        if nv > 255 {
            proof {
                assert(start == lo ==> digits =~= s);
                if all_dec(digits) {
                    lemma_dec_value_prefix_mono(digits, (i + 1 - start) as nat);
                    assert(digits.subrange(0, (i + 1 - start) as int) =~= nx);
                }
            }
            return None;
        }
        v = nv;
        i = i + 1;
    }
    assert(b@.subrange(start as int, i as int) =~= digits);
    Some(v as u8)
}

/// A longer digit string never denotes less than its prefixes.
pub proof fn lemma_dec_value_prefix_mono(s: Seq<u8>, k: nat)
    requires
        k <= s.len(),
        all_dec(s),
    ensures
        dec_value(s.subrange(0, k as int)) <= dec_value(s),
    decreases s.len() - k,
{
    if k < s.len() {
        lemma_dec_value_prefix_mono(s, k + 1);
        let a = s.subrange(0, k as int);
        let b2 = s.subrange(0, (k + 1) as int);
        assert(b2.drop_last() =~= a);
    } else {
        assert(s.subrange(0, k as int) =~= s);
    }
}

/// `String::push`: appends one character to `s`. As with `Vec::push` in vstd, the capacity
/// overflow past `isize::MAX` bytes is left out of the contract.
#[verifier::external_body]
pub(crate) fn push_char(s: &mut String, c: char)
    ensures
        final(s)@ == old(s)@.push(c),
{
    s.push(c);
}

/// Appends the last `w` hexadecimal digits of `v`.
pub fn push_hex(s: &mut String, v: u128, w: usize, upper: bool)
    requires
        w <= 32,
    ensures
        final(s)@ == old(s)@ + hex_fmt(v as nat, w as nat, upper),
    decreases w,
{
    if w == 0 {
        assert(old(s)@ + Seq::<char>::empty() =~= old(s)@);
        return ;
    }
    push_hex(s, v / 16, w - 1, upper);
    let d = (v % 16) as u8;
    let c: char = if d < 10 {
        (48 + d) as char
    } else if upper {
        (55 + d) as char
    } else {
        (87 + d) as char
    };
    push_char(s, c);
    proof {
        assert(c == hex_char((v % 16) as nat, upper));
        assert(old(s)@ + hex_fmt(v as nat, w as nat, upper) =~= old(s)@ + hex_fmt(
            (v / 16) as nat,
            (w - 1) as nat,
            upper,
        ) + seq![c]);
    }
}

/// Appends `v` in lower-case hexadecimal, zero padded to at least `w` digits.
pub fn push_hex_min(s: &mut String, v: usize, w: usize)
    requires
        w <= 32,
    ensures
        final(s)@ == old(s)@ + hex_fmt_min(v as nat, w as nat),
{
    let n = hex_digits(v);
    if n > w {
        push_hex(s, v as u128, n, false);
    } else {
        push_hex(s, v as u128, w, false);
    }
}

/// The number of hexadecimal digits of `v`.
fn hex_digits(v: usize) -> (n: usize)
    ensures
        n == hex_len(v as nat),
        n <= 16,
    decreases v,
{
    proof {
        assert(pow16(16) == 0x1_0000_0000_0000_0000nat) by { reveal_with_fuel(pow16, 17); }
        lemma_hex_len_bound(v as nat, 16);
    }
    if v < 16 {
        1
    } else {
        1 + hex_digits(v / 16)
    }
}

pub proof fn lemma_hex_len_bound(v: nat, k: nat)
    requires
        k >= 1,
        v < pow16(k),
    ensures
        hex_len(v) <= k,
    decreases k,
{
    if v >= 16 {
        assert(k >= 2) by {
            if k == 1 {
                assert(pow16(1) == 16) by { reveal_with_fuel(pow16, 17); }
            }
        }
        assert(v / 16 < pow16((k - 1) as nat));
        lemma_hex_len_bound(v / 16, (k - 1) as nat);
    }
}

/// Appends `v` in decimal.
pub fn push_dec(s: &mut String, v: u8)
    ensures
        final(s)@ == old(s)@ + dec_fmt(v as nat),
    decreases v,
{
    if v < 10 {
        push_char(s, (48 + v) as char);
        assert(old(s)@.push((48 + v) as char) =~= old(s)@ + dec_fmt(v as nat));
    } else {
        push_dec(s, v / 10);
        push_char(s, (48 + v % 10) as char);
        assert(old(s)@ + dec_fmt(v as nat) =~= old(s)@ + dec_fmt((v / 10) as nat) + seq![
            (48 + v % 10) as char,
        ]);
    }
}

} // verus!
