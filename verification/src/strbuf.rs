//! The few operations on `String` that the library uses and that vstd does not specify.
use vstd::prelude::*;
use vstd::utf8::*;

verus! {

/// `String::push_str`: appends the characters of `t`. As with `Vec::push` in vstd, the
/// capacity overflow past `isize::MAX` bytes is left out of the contract.
#[verifier::external_body]
pub(crate) fn push_str(s: &mut String, t: &str)
    ensures
        final(s)@ == old(s)@ + t@,
{
    s.push_str(t);
}

/// `String::with_capacity`: an empty string; the capacity is an allocation hint only (it
/// panics above `isize::MAX` bytes, which `requires` rules out).
#[verifier::external_body]
pub(crate) fn string_with_capacity(capacity: usize) -> (r: String)
    requires
        capacity <= isize::MAX,
    ensures
        r@ == Seq::<char>::empty(),
{
    String::with_capacity(capacity)
}

/// `String::truncate` to `n` characters of an ASCII string (every index is a character
/// boundary there, so the call does not panic).
#[verifier::external_body]
pub(crate) fn truncate_ascii(s: &mut String, n: usize)
    requires
        is_ascii_chars(old(s)@),
        n <= old(s)@.len(),
    ensures
        final(s)@ == old(s)@.take(n as int),
{
    s.truncate(n);
}

/// `String::reserve`: the contents do not change (it panics when the capacity would pass
/// `isize::MAX` bytes, which `requires` rules out).
#[verifier::external_body]
pub(crate) fn reserve(s: &mut String, additional: usize)
    requires
        encode_utf8(old(s)@).len() + additional <= isize::MAX,
    ensures
        final(s)@ == old(s)@,
{
    s.reserve(additional);
}

/// `String::reserve_exact`: the contents do not change (it panics when the capacity would
/// pass `isize::MAX` bytes, which `requires` rules out).
#[verifier::external_body]
pub(crate) fn reserve_exact(s: &mut String, additional: usize)
    requires
        encode_utf8(old(s)@).len() + additional <= isize::MAX,
    ensures
        final(s)@ == old(s)@,
{
    s.reserve_exact(additional);
}

/// Two texts are equal exactly when their encodings are.
pub proof fn lemma_encode_injective(a: Seq<char>, b: Seq<char>)
    ensures
        (encode_utf8(a) == encode_utf8(b)) == (a == b),
{
    encode_utf8_decode_utf8(a);
    encode_utf8_decode_utf8(b);
}

/// Compares two texts.
pub fn str_eq(a: &str, b: &str) -> (r: bool)
    ensures
        r == (a@ == b@),
{
    let x = a.as_bytes();
    let y = b.as_bytes();
    proof {
        lemma_encode_injective(a@, b@);
    }
    if x.len() != y.len() {
        return false;
    }
    let mut i: usize = 0;
    while i < x.len()
        invariant
            x@.len() == y@.len(),
            (x@ == y@) == (a@ == b@),
            i <= x@.len(),
            forall|j: int| 0 <= j < i ==> x@[j] == y@[j],
        decreases x@.len() - i,
    {
        if x[i] != y[i] {
            return false;
        }
        i = i + 1;
    }
    assert(x@ =~= y@);
    true
}

} // verus!
