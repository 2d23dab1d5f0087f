//! D-Bus object paths: their validation, and the path operations that the library performs
//! on them (with the meaning that `std::path` gives them on Unix).
use vstd::prelude::*;
use vstd::string::*;
use vstd::utf8::*;

use crate::hex::{ascii_bytes, lemma_ascii_encoding, push_char};
use crate::strbuf::{lemma_encode_injective, push_str, reserve, reserve_exact, string_with_capacity, truncate_ascii};

verus! {


/// Why a text is not a D-Bus object path.
#[derive(Debug, PartialEq, Eq, Structural, Clone, Copy)]
pub enum InvalidObjectPath {
    NoRoot,
    ContainsInvalidCharacters,
    TrailingSlash,
}

/// The path does not start with the prefix given to `strip_prefix`.
#[derive(Debug, PartialEq, Eq, Structural, Clone, Copy)]
pub struct StripPrefixError;

/// A character that may appear in an element of an object path.
pub open spec fn is_name_char(c: char) -> bool {
    ('a' <= c && c <= 'z') || ('A' <= c && c <= 'Z') || ('0' <= c && c <= '9') || c == '_'
}

pub open spec fn is_path_char(c: char) -> bool {
    is_name_char(c) || c == '/'
}

/// Every character is a name character or `/`.
pub open spec fn path_chars(s: Seq<char>) -> bool {
    forall|i: int| 0 <= i < s.len() ==> is_path_char(#[trigger] s[i])
}

/// Character `i` is neither a name character nor `/`, or it is a second `/` in a row.
pub open spec fn bad_char_at(s: Seq<char>, i: int) -> bool {
    !is_path_char(s[i]) || (s[i] == '/' && i > 0 && s[i - 1] == '/')
}

/// The outcome of validating `s` as an object path; the checks are made in this order.
pub open spec fn validate_spec(s: Seq<char>) -> Result<(), InvalidObjectPath> {
    if s.len() == 0 || s[0] != '/' {
        Err(InvalidObjectPath::NoRoot)
    } else if exists|i: int| 0 <= i < s.len() && #[trigger] bad_char_at(s, i) {
        Err(InvalidObjectPath::ContainsInvalidCharacters)
    } else if s.len() != 1 && s.last() == '/' {
        Err(InvalidObjectPath::TrailingSlash)
    } else {
        Ok(())
    }
}

/// `s` is a valid object path: `/`, or `/` followed by non-empty elements separated by `/`.
pub open spec fn valid_path(s: Seq<char>) -> bool {
    validate_spec(s) is Ok
}

/// The end of `s[..i]` once the separators at its end are left out.
pub open spec fn trim_end(s: Seq<char>, i: int) -> int
    decreases i,
{
    if 0 < i <= s.len() && s[i - 1] == '/' {
        trim_end(s, i - 1)
    } else {
        i
    }
}

/// Where the element of `s` that ends at `i` begins.
pub open spec fn name_start(s: Seq<char>, i: int) -> int
    decreases i,
{
    if 0 < i <= s.len() && s[i - 1] != '/' {
        name_start(s, i - 1)
    } else {
        i
    }
}

/// The first position at or after `i` that does not hold a separator.
pub open spec fn lead_end(s: Seq<char>, i: int) -> int
    decreases s.len() - i,
{
    if 0 <= i < s.len() && s[i] == '/' {
        lead_end(s, i + 1)
    } else {
        i
    }
}

/// The path starts at the root.
pub open spec fn rooted(s: Seq<char>) -> bool {
    s.len() > 0 && s[0] == '/'
}

/// The last element of the path, if it has one.
pub open spec fn file_name_spec(s: Seq<char>) -> Option<Seq<char>> {
    let e = trim_end(s, s.len() as int);
    if e == 0 {
        None
    } else {
        Some(s.subrange(name_start(s, e), e))
    }
}

/// The length of the parent path: the path without its last element and the separators
/// before it (the root stays), if the path has an element.
pub open spec fn parent_len(s: Seq<char>) -> Option<int> {
    let e = trim_end(s, s.len() as int);
    if e == 0 {
        None
    } else {
        let m = trim_end(s, name_start(s, e));
        Some(
            if m == 0 && rooted(s) {
                1
            } else {
                m
            },
        )
    }
}

pub open spec fn parent_spec(s: Seq<char>) -> Option<Seq<char>> {
    match parent_len(s) {
        Some(m) => Some(s.take(m)),
        None => None,
    }
}

/// A path without the separators at its start and its end: what is left of a rooted path
/// once its root is taken off.
pub open spec fn strip_root(s: Seq<char>) -> Seq<char> {
    let a = lead_end(s, 0);
    let b = trim_end(s, s.len() as int);
    if a < b {
        s.subrange(a, b)
    } else {
        Seq::empty()
    }
}

/// A separator goes between `s` and what is appended to it.
pub open spec fn needs_sep(s: Seq<char>) -> bool {
    s.len() > 0 && s.last() != '/'
}

/// `buf` with the elements of the rooted path `p` appended.
pub open spec fn push_spec(buf: Seq<char>, p: Seq<char>) -> Seq<char> {
    if needs_sep(buf) {
        buf.push('/') + strip_root(p)
    } else {
        buf + strip_root(p)
    }
}

/// The elements of the key `kb` start those of the key `ka`: both are rooted, or neither
/// is, and the elements of `kb` come first in `ka`.
pub open spec fn key_prefix(ka: Seq<char>, kb: Seq<char>) -> bool {
    ka == kb || (kb == seq!['/'] && rooted(ka)) || (kb.len() < ka.len() && ka.take(kb.len() as int)
        == kb && ka[kb.len() as int] == '/')
}

/// The path `a` starts with the path `b`, as `std::path` finds it: the root and the elements
/// of `b` start those of `a` (the empty path starts every path).
pub open spec fn starts_with_spec(a: Seq<char>, b: Seq<char>) -> bool {
    path_key(b).len() == 0 || key_prefix(path_key(a), path_key(b))
}

/// How many characters of `a[..r]` its key keeps: each one but a separator right after
/// another (a separator at the end counts).
pub open spec fn kept_len(a: Seq<char>, r: int) -> int
    decreases r,
{
    if r <= 0 {
        0
    } else {
        kept_len(a, r - 1) + if a[r - 1] == '/' && r >= 2 && a[r - 2] == '/' {
            0int
        } else {
            1int
        }
    }
}

/// The first position at or after `r` by which `a` has kept `m` characters of its key, or
/// its end.
pub open spec fn pos_after(a: Seq<char>, r: int, m: int) -> int
    decreases a.len() - r,
{
    if r >= a.len() || kept_len(a, r) >= m {
        r
    } else {
        pos_after(a, r + 1, m)
    }
}

/// The length of what is left of `a` once the elements that make up a key of length `m`
/// are taken off its front, without the separators at its start and at its end.
pub open spec fn rest_len(a: Seq<char>, m: int) -> int {
    let lo = lead_end(a, pos_after(a, 0, m));
    let hi = trim_end(a, a.len() as int);
    if lo < hi {
        hi - lo
    } else {
        0
    }
}

/// The path `a` without the leading elements that make up the path `b` (as `std::path`
/// strips them), given as an object path: the root when nothing is left, else the last
/// characters of `a`, as many as are left and one more (the separator before them, when `a`
/// has none at its end).
pub open spec fn strip_prefix_spec(a: Seq<char>, b: Seq<char>) -> Option<Seq<char>> {
    let st = rest_len(a, path_key(b).len() as int);
    if !starts_with_spec(a, b) {
        None
    } else if st == 0 {
        Some(seq!['/'])
    } else {
        Some(a.skip(a.len() - 1 - st))
    }
}

/// `s` with each run of separators taken as a single separator.
pub open spec fn collapse_seps(s: Seq<char>) -> Seq<char>
    decreases s.len(),
{
    if s.len() == 0 {
        Seq::empty()
    } else {
        let c = collapse_seps(s.drop_last());
        if s.last() == '/' && c.len() > 0 && c.last() == '/' {
            c
        } else {
            c.push(s.last())
        }
    }
}

/// The text by which two paths are compared, as `std::path` compares them on Unix: each run
/// of separators counts as one, and a separator at the end does not count (but for the root).
pub open spec fn path_key(s: Seq<char>) -> Seq<char> {
    let c = collapse_seps(s);
    if c.len() > 1 && c.last() == '/' {
        c.drop_last()
    } else {
        c
    }
}

/// Two paths are equal: they have the same root, if any, and the same elements.
pub open spec fn same_path(a: Seq<char>, b: Seq<char>) -> bool {
    path_key(a) == path_key(b)
}

proof fn lemma_name_start_run(s: Seq<char>, lo: int, hi: int)
    requires
        0 <= lo <= hi <= s.len(),
        forall|k: int| lo <= k < hi ==> s[k] != '/',
        lo == 0 || s[lo - 1] == '/',
    ensures
        name_start(s, hi) == lo,
    decreases hi - lo,
{
    if hi > lo {
        lemma_name_start_run(s, lo, hi - 1);
    }
}

/// The parts of a valid path: it is `/`, or each of its elements is preceded by one `/`.
proof fn lemma_valid_facts(s: Seq<char>)
    requires
        valid_path(s),
    ensures
        rooted(s),
        path_chars(s),
        s.len() > 1 ==> s[1] != '/' && s.last() != '/',
        forall|k: int| 0 < k < s.len() && #[trigger] s[k] == '/' ==> s[k - 1] != '/',
        s.len() > 1 ==> trim_end(s, s.len() as int) == s.len(),
        s.len() > 1 ==> lead_end(s, 0) == 1,
        strip_root(s) == s.drop_first(),
{
    assert forall|k: int| 0 <= k < s.len() implies is_path_char(#[trigger] s[k]) by {
        assert(!bad_char_at(s, k));
    }
    assert forall|k: int| 0 < k < s.len() && #[trigger] s[k] == '/' implies s[k - 1] != '/' by {
        assert(!bad_char_at(s, k));
    }
    if s.len() > 1 {
        assert(!bad_char_at(s, 1));
        assert(lead_end(s, 1) == 1);
        assert(strip_root(s) =~= s.drop_first());
    } else {
        assert(lead_end(s, 1) == 1);
        assert(trim_end(s, 0) == 0);
        assert(strip_root(s) =~= s.drop_first());
    }
}

/// Appending the valid path `b` to the valid path `a`: `b` itself when `a` is the root,
/// else the text of `a` followed by that of `b`.
pub proof fn lemma_push_valid(a: Seq<char>, b: Seq<char>)
    requires
        valid_path(a),
        valid_path(b),
    ensures
        push_spec(a, b) == (if a.len() == 1 {
            b
        } else {
            a + b
        }),
{
    lemma_valid_facts(a);
    lemma_valid_facts(b);
    if a.len() == 1 {
        assert(push_spec(a, b) =~= b);
    } else {
        assert(push_spec(a, b) =~= a + b);
    }
}

/// Appending a valid path other than the root to a valid path gives a valid path that starts
/// with the first, and stripping the first off gives back the second.
pub proof fn lemma_push_strip_prefix(a: Seq<char>, b: Seq<char>)
    requires
        valid_path(a),
        valid_path(b),
        b.len() > 1,
    ensures
        valid_path(push_spec(a, b)),
        starts_with_spec(push_spec(a, b), a),
        strip_prefix_spec(push_spec(a, b), a) == Some(b),
{
    lemma_push_valid(a, b);
    lemma_valid_facts(a);
    lemma_valid_facts(b);
    lemma_valid_path_key(a);
    if a.len() > 1 {
        let c = a + b;
        assert forall|k: int| 0 <= k < c.len() implies !#[trigger] bad_char_at(c, k) by {
            if k < a.len() {
                assert(c[k] == a[k]);
                assert(!bad_char_at(a, k));
                if k > 0 {
                    assert(c[k - 1] == a[k - 1]);
                }
            } else if k == a.len() {
                assert(c[k] == b[0]);
                assert(c[k - 1] == a.last());
            } else {
                assert(c[k] == b[k - a.len()]);
                assert(c[k - 1] == b[k - a.len() - 1]);
                assert(!bad_char_at(b, k - a.len()));
            }
        }
        assert(c.last() == b.last());
        assert(c.take(a.len() as int) =~= a);
        assert(c.skip(a.len() as int) =~= b);
        assert(c != a);
        assert(c[a.len() as int] == b[0]);
        assert(a.len() != 1);
        lemma_valid_path_key(c);
        assert(key_prefix(c, a));
        lemma_valid_facts(c);
        lemma_pos_after_valid(c, 0, a.len() as int);
        assert(c[a.len() as int + 1] == b[1]);
        assert(lead_end(c, a.len() as int + 1) == a.len() + 1);
        assert(lead_end(c, a.len() as int) == a.len() + 1);
        assert(c.skip(c.len() - 1 - (c.len() - a.len() - 1)) =~= b);
    } else {
        assert(a =~= seq!['/']);
        lemma_valid_path_key(b);
        assert(key_prefix(b, a));
        lemma_pos_after_valid(b, 0, 1);
        assert(lead_end(b, 1) == 1);
        assert(b.skip(0) =~= b);
    }
}

/// The last element of a valid path with one more element `n` pushed on is `n`: every
/// element pushed becomes the file name.
pub proof fn lemma_file_name_of_push(p: Seq<char>, n: Seq<char>)
    requires
        valid_path(p),
        n.len() > 0,
        forall|i: int| 0 <= i < n.len() ==> is_name_char(#[trigger] n[i]),
    ensures
        file_name_spec(push_spec(p, seq!['/'] + n)) == Some(n),
{
    let b = seq!['/'] + n;
    assert(valid_path(b)) by {
        assert forall|k: int| 0 <= k < b.len() implies !#[trigger] bad_char_at(b, k) by {
            if k > 0 {
                assert(b[k] == n[k - 1]);
                assert(is_name_char(n[k - 1]));
            }
        }
        assert(b.last() == n.last());
        assert(is_name_char(n.last()));
    }
    lemma_push_valid(p, b);
    let c = push_spec(p, b);
    let len = c.len() as int;
    let lo = len - n.len();
    assert forall|k: int| lo <= k < len implies c[k] != '/' by {
        assert(c[k] == n[k - lo]);
        assert(is_name_char(n[k - lo]));
    }
    assert(c[lo - 1] == '/');
    assert(c.last() != '/');
    assert(trim_end(c, len) == len);
    lemma_name_start_run(c, lo, len);
    assert(c.subrange(lo, len) =~= n);
}

/// Every valid path but the root has a file name, and it is its last element: the text
/// after its last separator.
pub proof fn lemma_file_name_valid(p: Seq<char>)
    requires
        valid_path(p),
    ensures
        (file_name_spec(p) is None) == (p.len() == 1),
        p.len() > 1 ==> file_name_spec(p) == Some(p.skip(name_start(p, p.len() as int))),
        p.len() > 1 ==> name_start(p, p.len() as int) > 0 && p[name_start(p, p.len() as int) - 1]
            == '/',
        p.len() > 1 ==> forall|k: int|
            name_start(p, p.len() as int) <= k < p.len() ==> #[trigger] p[k] != '/',
{
    lemma_valid_facts(p);
    lemma_name_start_bounds(p, p.len() as int);
    if p.len() > 1 {
        assert(p.last() != '/');
        assert(p.subrange(name_start(p, p.len() as int), p.len() as int) =~= p.skip(
            name_start(p, p.len() as int),
        ));
    } else {
        assert(p[0] == '/');
        assert(trim_end(p, 0) == 0);
    }
}

/// Taking the last element off a path made by appending a one-element path to a valid path
/// gives back the valid path.
pub proof fn lemma_pop_push(a: Seq<char>, b: Seq<char>)
    requires
        valid_path(a),
        valid_path(b),
        b.len() > 1,
        forall|k: int| 0 < k < b.len() ==> b[k] != '/',
    ensures
        parent_spec(push_spec(a, b)) == Some(a),
{
    lemma_push_valid(a, b);
    lemma_valid_facts(a);
    lemma_valid_facts(b);
    let c = push_spec(a, b);
    let n = c.len() as int;
    let lo = c.len() - b.len() + 1;
    assert forall|k: int| lo <= k < n implies c[k] != '/' by {
        assert(c[k] == b[k - (c.len() - b.len())]);
    }
    assert(c[lo - 1] == '/');
    assert(c.last() != '/');
    lemma_name_start_run(c, lo, n);
    assert(trim_end(c, n) == n);
    if a.len() == 1 {
        assert(trim_end(c, 0) == 0);
        assert(c.take(1) =~= a);
    } else {
        assert(c[lo - 2] == a.last());
        assert(trim_end(c, lo - 1) == lo - 1);
        assert(c.take(lo - 1) =~= a);
    }
}

/// The parent of a valid path other than the root is a valid path.
pub proof fn lemma_parent_valid(s: Seq<char>)
    requires
        valid_path(s),
        s.len() > 1,
    ensures
        parent_spec(s) matches Some(p) && valid_path(p),
{
    lemma_valid_facts(s);
    let n = s.len() as int;
    let st = name_start(s, n);
    lemma_name_start_bounds(s, n);
    assert(st >= 1) by {
        if st == 0 {
            assert(s[0] != '/');
            assert(false);
        }
    }
    assert(s[st - 1] == '/');
    let m = trim_end(s, st);
    if st == 1 {
        assert(trim_end(s, 0) == 0);
        assert(s.take(1) =~= seq!['/']);
        assert(!bad_char_at(seq!['/'], 0));
    } else {
        assert(s[st - 2] != '/');
        assert(trim_end(s, st - 1) == st - 1);
        let p = s.take(st - 1);
        assert forall|k: int| 0 <= k < p.len() implies !#[trigger] bad_char_at(p, k) by {
            assert(!bad_char_at(s, k));
        }
    }
}

proof fn lemma_name_start_bounds(s: Seq<char>, i: int)
    requires
        0 <= i <= s.len(),
    ensures
        0 <= name_start(s, i) <= i,
        name_start(s, i) > 0 ==> s[name_start(s, i) - 1] == '/',
        forall|k: int| name_start(s, i) <= k < i ==> #[trigger] s[k] != '/',
    decreases i,
{
    if i > 0 && s[i - 1] != '/' {
        lemma_name_start_bounds(s, i - 1);
    }
}

/// A D-Bus object path. One made by `new` is valid; one seen through an `ObjectPathBuf` may
/// be any text of name characters and separators.
///
/// Two paths are equal, and hash alike, as `std::path` finds them (see `same_path`). The
/// derived order compares the texts byte by byte: it agrees with equality on valid paths
/// (`lemma_valid_path_key`), but tells apart texts that differ only in repeated or trailing
/// separators.
#[derive(Debug, Eq, PartialOrd, Ord)]
pub struct ObjectPath {
    inner: String,
}

/// An owned, growable object path; it compares, hashes and orders as the path it holds.
#[derive(Debug, Eq, PartialOrd, Ord, Hash)]
pub struct ObjectPathBuf {
    inner: ObjectPath,
}

impl View for ObjectPath {
    type V = Seq<char>;

    closed spec fn view(&self) -> Seq<char> {
        self.inner@
    }
}

impl View for ObjectPathBuf {
    type V = Seq<char>;

    closed spec fn view(&self) -> Seq<char> {
        self.inner@
    }
}

proof fn lemma_path_chars_ascii(s: Seq<char>)
    requires
        path_chars(s),
    ensures
        is_ascii_chars(s),
        encode_utf8(s) == ascii_bytes(s),
{
    assert forall|i: int| 0 <= i < s.len() implies '\0' <= #[trigger] s[i] <= '\u{7f}' by {
        assert(is_path_char(s[i]));
    }
    lemma_ascii_encoding(s);
}

/// `b[..i]` without the separators at its end, where `b` holds the ASCII text `s`.
fn trim_end_exec(b: &[u8], i: usize, Ghost(s): Ghost<Seq<char>>) -> (r: usize)
    requires
        is_ascii_chars(s),
        b@ == ascii_bytes(s),
        i <= b@.len(),
    ensures
        r as int == trim_end(s, i as int),
        r <= i,
{
    let mut j = i;
    while j > 0 && b[j - 1] == 0x2f
        invariant
            is_ascii_chars(s),
            b@ == ascii_bytes(s),
            j <= i <= b@.len(),
            trim_end(s, j as int) == trim_end(s, i as int),
        decreases j,
    {
        assert(s[j - 1] == '/');
        j = j - 1;
    }
    proof {
        if j > 0 {
            assert('\0' <= s[j - 1] <= '\u{7f}');
            assert(s[j - 1] != '/');
        }
    }
    j
}

/// Where the element that ends at `i` begins, where `b` holds the ASCII text `s`.
fn name_start_exec(b: &[u8], i: usize, Ghost(s): Ghost<Seq<char>>) -> (r: usize)
    requires
        is_ascii_chars(s),
        b@ == ascii_bytes(s),
        i <= b@.len(),
    ensures
        r as int == name_start(s, i as int),
        r <= i,
{
    let mut j = i;
    while j > 0 && b[j - 1] != 0x2f
        invariant
            is_ascii_chars(s),
            b@ == ascii_bytes(s),
            j <= i <= b@.len(),
            name_start(s, j as int) == name_start(s, i as int),
        decreases j,
    {
        proof {
            assert('\0' <= s[j - 1] <= '\u{7f}');
        }
        j = j - 1;
    }
    j
}

/// The first position at or after `i` that holds no separator, where `b` holds `s`.
fn lead_end_exec(b: &[u8], i: usize, Ghost(s): Ghost<Seq<char>>) -> (r: usize)
    requires
        is_ascii_chars(s),
        b@ == ascii_bytes(s),
        i <= b@.len(),
    ensures
        r as int == lead_end(s, i as int),
        i <= r <= b@.len(),
{
    let mut j = i;
    while j < b.len() && b[j] == 0x2f
        invariant
            is_ascii_chars(s),
            b@ == ascii_bytes(s),
            i <= j <= b@.len(),
            lead_end(s, j as int) == lead_end(s, i as int),
        decreases b@.len() - j,
    {
        assert(s[j as int] == '/');
        j = j + 1;
    }
    proof {
        if j < b.len() {
            assert('\0' <= s[j as int] <= '\u{7f}');
        }
    }
    j
}

/// A name character, given as its ASCII byte.
fn is_name_byte(c: u8) -> (r: bool)
    ensures
        r == ((0x61 <= c && c <= 0x7a) || (0x41 <= c && c <= 0x5a) || (0x30 <= c && c <= 0x39) || c
            == 0x5f),
{
    (0x61 <= c && c <= 0x7a) || (0x41 <= c && c <= 0x5a) || (0x30 <= c && c <= 0x39) || c == 0x5f
}

impl ObjectPath {
    #[verifier::type_invariant]
    spec fn inv(self) -> bool {
        path_chars(self.inner@)
    }

    /// Checks that `path` is a valid object path.
    pub fn validate(path: &str) -> (r: Result<(), InvalidObjectPath>)
        ensures
            r == validate_spec(path@),
    {
        let ghost s = path@;
        let n = path.unicode_len();
        if n == 0 || path.get_char(0) != '/' {
            return Err(InvalidObjectPath::NoRoot);
        }
        if !path.is_ascii() {
            proof {
                let i = choose|i: int| 0 <= i < s.len() && !('\0' <= #[trigger] s[i] <= '\u{7f}');
                assert(bad_char_at(s, i));
            }
            return Err(InvalidObjectPath::ContainsInvalidCharacters);
        }
        let b = path.as_bytes();
        proof {
            lemma_ascii_encoding(s);
        }
        let mut last_was_sep = false;
        let mut i: usize = 0;
        while i < b.len()
            invariant
                s == path@,
                is_ascii_chars(s),
                b@ == ascii_bytes(s),
                n == s.len(),
                s.len() > 0 && s[0] == '/',
                i <= b@.len(),
                last_was_sep == (i > 0 && s[i - 1] == '/'),
                forall|j: int| 0 <= j < i ==> !#[trigger] bad_char_at(s, j),
            decreases b@.len() - i,
        {
            let c = b[i];
            proof {
                assert('\0' <= s[i as int] <= '\u{7f}');
            }
            if !is_name_byte(c) {
                if c == 0x2f && !last_was_sep {
                    last_was_sep = true;
                } else {
                    assert(bad_char_at(s, i as int));
                    return Err(InvalidObjectPath::ContainsInvalidCharacters);
                }
            } else {
                last_was_sep = false;
            }
            assert(!bad_char_at(s, i as int));
            i = i + 1;
        }
        assert(!exists|j: int| 0 <= j < s.len() && #[trigger] bad_char_at(s, j));
        if n != 1 && b[n - 1] == 0x2f {
            return Err(InvalidObjectPath::TrailingSlash);
        }
        proof {
            assert('\0' <= s[n - 1] <= '\u{7f}');
        }
        Ok(())
    }

    /// Makes an object path of `p`, if it is valid.
    pub fn new(p: &str) -> (r: Result<ObjectPath, InvalidObjectPath>)
        ensures
            match r {
                Ok(o) => valid_path(p@) && o@ == p@,
                Err(e) => validate_spec(p@) == Err::<(), InvalidObjectPath>(e),
            },
    {
        match ObjectPath::validate(p) {
            Ok(()) => {
                proof {
                    assert forall|i: int| 0 <= i < p@.len() implies is_path_char(#[trigger] p@[i]) by {
                        assert(!bad_char_at(p@, i));
                    }
                }
                Ok(ObjectPath { inner: p.to_owned() })
            },
            Err(e) => Err(e),
        }
    }

    /// The text of the path as bytes (ASCII).
    pub fn as_bytes(&self) -> (r: &[u8])
        ensures
            r@ == ascii_bytes(self@),
            is_ascii_chars(self@),
    {
        proof {
            use_type_invariant(self);
            lemma_path_chars_ascii(self.inner@);
        }
        self.inner.as_str().as_bytes()
    }

    /// The text of the path.
    pub fn as_str(&self) -> (r: &str)
        ensures
            r@ == self@,
    {
        self.inner.as_str()
    }

    /// The last element of the path, if it has one.
    pub fn file_name(&self) -> (r: Option<&str>)
        ensures
            match r {
                Some(n) => file_name_spec(self@) == Some(n@),
                None => file_name_spec(self@) is None,
            },
    {
        let b = self.as_bytes();
        let ghost s = self@;
        let e = trim_end_exec(b, b.len(), Ghost(s));
        if e == 0 {
            return None;
        }
        let st = name_start_exec(b, e, Ghost(s));
        let t = self.inner.as_str();
        Some(t.substring_ascii(st, e))
    }

    /// The path without its last element, if it has one (the parent of `/a` is `/`).
    pub fn parent(&self) -> (r: Option<ObjectPath>)
        ensures
            match r {
                Some(p) => parent_spec(self@) == Some(p@),
                None => parent_spec(self@) is None,
            },
    {
        proof {
            use_type_invariant(self);
        }
        let b = self.as_bytes();
        let ghost s = self@;
        let e = trim_end_exec(b, b.len(), Ghost(s));
        if e == 0 {
            return None;
        }
        let st = name_start_exec(b, e, Ghost(s));
        let m0 = trim_end_exec(b, st, Ghost(s));
        let m = if m0 == 0 && b.len() > 0 && b[0] == 0x2f {
            1
        } else {
            m0
        };
        proof {
            if b.len() > 0 {
                assert('\0' <= s[0] <= '\u{7f}');
            }
        }
        let t = self.inner.as_str().substring_ascii(0, m).to_owned();
        proof {
            assert(t@ == s.take(m as int));
            assert forall|i: int| 0 <= i < t@.len() implies is_path_char(#[trigger] t@[i]) by {
                assert(t@[i] == s[i]);
            }
        }
        Some(ObjectPath { inner: t })
    }

    /// The path starts with the path `base`, as `std::path` finds it.
    pub fn starts_with(&self, base: &ObjectPath) -> (r: bool)
        ensures
            r == starts_with_spec(self@, base@),
    {
        proof {
            use_type_invariant(self);
            use_type_invariant(base);
            lemma_collapse_chars(self@);
            lemma_collapse_chars(base@);
            lemma_path_chars_ascii(path_key(self@));
            lemma_path_chars_ascii(path_key(base@));
        }
        let ka = key_bytes(self.as_bytes(), Ghost(self@));
        let kb = key_bytes(base.as_bytes(), Ghost(base@));
        key_prefix_bytes(ka.as_slice(), kb.as_slice(), Ghost(path_key(self@)), Ghost(path_key(base@)))
    }

    /// The path without the leading elements that make up the path `base` (see
    /// `strip_prefix_spec`).
    pub fn strip_prefix(&self, base: &ObjectPath) -> (r: Result<ObjectPath, StripPrefixError>)
        requires
            base@.len() > 0,
        ensures
            match r {
                Ok(o) => strip_prefix_spec(self@, base@) == Some(o@),
                Err(_) => strip_prefix_spec(self@, base@) is None,
            },
    {
        proof {
            use_type_invariant(self);
            use_type_invariant(base);
            lemma_key_nonempty(base@);
        }
        if !self.starts_with(base) {
            return Err(StripPrefixError);
        }
        let a = self.as_bytes();
        let kb = key_bytes(base.as_bytes(), Ghost(base@));
        let ghost sa = self@;
        let m = kb.len();
        proof {
            lemma_key_of_empty();
            if sa.len() == 0 {
                assert(sa =~= Seq::<char>::empty());
            }
        }
        let mut r: usize = 0;
        let mut k: usize = 0;
        while r < a.len() && k < m
            invariant
                a@ == ascii_bytes(sa),
                is_ascii_chars(sa),
                r <= a@.len(),
                k <= r,
                k as int == kept_len(sa, r as int),
                pos_after(sa, r as int, m as int) == pos_after(sa, 0, m as int),
            decreases a@.len() - r,
        {
            proof {
                assert('\0' <= sa[r as int] <= '\u{7f}');
                if r >= 1 {
                    assert('\0' <= sa[r - 1] <= '\u{7f}');
                }
            }
            if !(a[r] == 0x2f && r >= 1 && a[r - 1] == 0x2f) {
                k = k + 1;
            }
            r = r + 1;
        }
        proof {
            lemma_pos_after_bounds(sa, 0, m as int);
        }
        let lo = lead_end_exec(a, r, Ghost(sa));
        let hi = trim_end_exec(a, a.len(), Ghost(sa));
        if lo < hi {
            let st = hi - lo;
            proof {
                lemma_lead_end_ge(sa, r as int);
                assert(r >= 1);
            }
            let t = self.inner.as_str().substring_ascii(a.len() - 1 - st, a.len()).to_owned();
            proof {
                assert(t@ =~= sa.skip(sa.len() - 1 - st));
                assert forall|i: int| 0 <= i < t@.len() implies is_path_char(#[trigger] t@[i]) by {
                    assert(t@[i] == sa[i + sa.len() - 1 - st]);
                }
            }
            Ok(ObjectPath { inner: t })
        } else {
            let mut t = String::new();
            push_char(&mut t, '/');
            proof {
                assert(t@ =~= seq!['/']);
                assert(is_path_char(t@[0]));
            }
            Ok(ObjectPath { inner: t })
        }
    }

    /// A copy of the path.
    fn clone_path(&self) -> (r: ObjectPath)
        ensures
            r@ == self@,
    {
        proof {
            use_type_invariant(self);
        }
        ObjectPath { inner: self.inner.clone() }
    }

    /// An owned copy of the path.
    pub fn to_owned(&self) -> (r: ObjectPathBuf)
        ensures
            r@ == self@,
    {
        ObjectPathBuf { inner: self.clone_path() }
    }
}

proof fn lemma_collapse_chars(s: Seq<char>)
    requires
        path_chars(s),
    ensures
        path_chars(collapse_seps(s)),
        path_chars(path_key(s)),
    decreases s.len(),
{
    if s.len() > 0 {
        assert(path_chars(s.drop_last()));
        lemma_collapse_chars(s.drop_last());
    }
}

/// A valid path is its own key: valid paths compare by their text.
pub proof fn lemma_valid_path_key(s: Seq<char>)
    requires
        valid_path(s),
    ensures
        path_key(s) == s,
{
    assert forall|i: int| 0 < i <= s.len() implies collapse_seps(#[trigger] s.take(i)) == s.take(i) by {
        lemma_collapse_prefix(s, i);
    }
    assert(s.take(s.len() as int) =~= s);
    if s.len() > 1 {
        assert(!bad_char_at(s, s.len() - 1));
    }
}

proof fn lemma_collapse_prefix(s: Seq<char>, i: int)
    requires
        valid_path(s),
        0 < i <= s.len(),
    ensures
        collapse_seps(s.take(i)) == s.take(i),
    decreases i,
{
    let t = s.take(i);
    assert(t.drop_last() =~= s.take(i - 1));
    if i > 1 {
        lemma_collapse_prefix(s, i - 1);
        assert(!bad_char_at(s, i - 1));
        assert(s.take(i - 1).last() == s[i - 2]);
    } else {
        assert(t.drop_last() =~= Seq::<char>::empty());
        assert(collapse_seps(Seq::<char>::empty()) == Seq::<char>::empty());
    }
    assert(s.take(i - 1).push(s[i - 1]) =~= t);
}

proof fn lemma_ascii_bytes_injective(p: Seq<char>, q: Seq<char>)
    requires
        is_ascii_chars(p),
        is_ascii_chars(q),
        ascii_bytes(p) == ascii_bytes(q),
    ensures
        p == q,
{
    lemma_ascii_encoding(p);
    lemma_ascii_encoding(q);
    lemma_encode_injective(p, q);
}

/// The bytes of the key of the ASCII text `s`, whose bytes `b` are.
fn key_bytes(b: &[u8], Ghost(s): Ghost<Seq<char>>) -> (r: Vec<u8>)
    requires
        b@ == ascii_bytes(s),
        is_ascii_chars(s),
    ensures
        r@ == ascii_bytes(path_key(s)),
{
    let mut out: Vec<u8> = Vec::new();
    let mut i: usize = 0;
    assert(s.take(0) =~= Seq::<char>::empty());
    assert(out@ =~= ascii_bytes(collapse_seps(s.take(0))));
    while i < b.len()
        invariant
            b@ == ascii_bytes(s),
            is_ascii_chars(s),
            i <= s.len(),
            out@ == ascii_bytes(collapse_seps(s.take(i as int))),
        decreases s.len() - i,
    {
        let ghost c0 = collapse_seps(s.take(i as int));
        assert(s.take(i + 1).drop_last() =~= s.take(i as int));
        assert(s.take(i + 1).last() == s[i as int]);
        assert('\0' <= s[i as int] <= '\u{7f}');
        let c = b[i];
        let n = out.len();
        proof {
            if n > 0 {
                assert(out@[n - 1] == c0.last() as u8);
                assert(forall|k: int| 0 <= k < s.len() ==> '\0' <= #[trigger] s[k] <= '\u{7f}');
            }
        }
        if c == 0x2f && n > 0 && out[n - 1] == 0x2f {
            proof {
                lemma_collapse_last_ascii(s, i as int);
            }
        } else {
            out.push(c);
            proof {
                lemma_collapse_last_ascii(s, i as int);
                assert(out@ =~= ascii_bytes(c0.push(s[i as int])));
            }
        }
        i = i + 1;
    }
    assert(s.take(s.len() as int) =~= s);
    let ghost c = collapse_seps(s);
    let n = out.len();
    if n > 1 && out[n - 1] == 0x2f {
        proof {
            lemma_collapse_last_ascii(s, s.len() as int);
        }
        out.pop();
        proof {
            assert(out@ =~= ascii_bytes(c.drop_last()));
        }
    } else {
        proof {
            if n > 1 {
                lemma_collapse_last_ascii(s, s.len() as int);
            }
        }
    }
    out
}

proof fn lemma_collapse_last_ascii(s: Seq<char>, i: int)
    requires
        is_ascii_chars(s),
        0 <= i <= s.len(),
    ensures
        is_ascii_chars(collapse_seps(s.take(i))),
    decreases i,
{
    if i > 0 {
        assert(s.take(i).drop_last() =~= s.take(i - 1));
        lemma_collapse_last_ascii(s, i - 1);
    }
}

/// The byte texts `x` and `y` are equal.
fn bytes_eq(x: &[u8], y: &[u8]) -> (r: bool)
    ensures
        r == (x@ == y@),
{
    if x.len() != y.len() {
        return false;
    }
    let mut i: usize = 0;
    while i < x.len()
        invariant
            x@.len() == y@.len(),
            i <= x@.len(),
            forall|j: int| 0 <= j < i ==> x@[j] == y@[j],
        decreases x@.len() - i,
    {
        if x[i] != y[i] {
            return false;
        }
        i = i + 1;
    }
    assert(x@ =~= y@);
    true
}

/// The key of a non-empty path is not empty.
proof fn lemma_key_nonempty(s: Seq<char>)
    requires
        s.len() > 0,
    ensures
        path_key(s).len() > 0,
{
    let c = collapse_seps(s.drop_last());
    assert(collapse_seps(s).len() >= 1);
}

/// The key of the empty path is empty.
proof fn lemma_key_of_empty()
    ensures
        path_key(Seq::<char>::empty()) == Seq::<char>::empty(),
{
    assert(collapse_seps(Seq::<char>::empty()) == Seq::<char>::empty());
}

proof fn lemma_pos_after_bounds(a: Seq<char>, r: int, m: int)
    requires
        0 <= r <= a.len(),
    ensures
        r <= pos_after(a, r, m) <= a.len(),
        m > 0 && r == 0 && a.len() > 0 ==> pos_after(a, r, m) >= 1,
    decreases a.len() - r,
{
    if !(r >= a.len() || kept_len(a, r) >= m) {
        lemma_pos_after_bounds(a, r + 1, m);
    }
}

proof fn lemma_lead_end_ge(s: Seq<char>, i: int)
    requires
        0 <= i <= s.len(),
    ensures
        i <= lead_end(s, i) <= s.len(),
    decreases s.len() - i,
{
    if i < s.len() && s[i] == '/' {
        lemma_lead_end_ge(s, i + 1);
    }
}

/// In a valid path, the key keeps every character.
proof fn lemma_kept_valid(s: Seq<char>, r: int)
    requires
        valid_path(s),
        0 <= r <= s.len(),
    ensures
        kept_len(s, r) == r,
    decreases r,
{
    if r > 0 {
        lemma_kept_valid(s, r - 1);
        if r >= 2 {
            assert(!bad_char_at(s, r - 1));
        }
    }
}

proof fn lemma_pos_after_valid(s: Seq<char>, r: int, m: int)
    requires
        valid_path(s),
        0 <= r <= m <= s.len(),
    ensures
        pos_after(s, r, m) == m,
    decreases s.len() - r,
{
    lemma_kept_valid(s, r);
    if r < m {
        lemma_pos_after_valid(s, r + 1, m);
    }
}

/// Whether the elements of the key `sb` start those of the key `sa`, or `sb` is empty; `a`
/// and `b` hold their bytes.
fn key_prefix_bytes(a: &[u8], b: &[u8], Ghost(sa): Ghost<Seq<char>>, Ghost(sb): Ghost<Seq<char>>) -> (r: bool)
    requires
        a@ == ascii_bytes(sa),
        b@ == ascii_bytes(sb),
        is_ascii_chars(sa),
        is_ascii_chars(sb),
    ensures
        r == (sb.len() == 0 || key_prefix(sa, sb)),
{
    if b.len() == 0 {
        return true;
    }
    proof {
        assert('\0' <= sb[0] <= '\u{7f}');
        assert((sb[0] as u8) as int == sb[0] as int);
        if sa.len() > 0 {
            assert('\0' <= sa[0] <= '\u{7f}');
            assert((sa[0] as u8) as int == sa[0] as int);
        }
    }
    if b.len() == 1 && b[0] == 0x2f {
        proof {
            assert(sb =~= seq!['/']);
        }
        return a.len() > 0 && a[0] == 0x2f;
    }
    proof {
        if sb == seq!['/'] {
            assert(b@[0] == 0x2f);
        }
    }
    if b.len() > a.len() {
        return false;
    }
    let mut i: usize = 0;
    while i < b.len()
        invariant
            a@ == ascii_bytes(sa),
            b@ == ascii_bytes(sb),
            is_ascii_chars(sa),
            is_ascii_chars(sb),
            b@.len() <= a@.len(),
            i <= b@.len(),
            forall|j: int| 0 <= j < i ==> sa[j] == sb[j],
        decreases b@.len() - i,
    {
        if a[i] != b[i] {
            proof {
                assert('\0' <= sa[i as int] <= '\u{7f}');
                assert('\0' <= sb[i as int] <= '\u{7f}');
                assert(sa.take(sb.len() as int)[i as int] != sb[i as int]);
                assert(sa[i as int] != sb[i as int]);
            }
            return false;
        }
        proof {
            assert('\0' <= sa[i as int] <= '\u{7f}');
            assert('\0' <= sb[i as int] <= '\u{7f}');
            assert((sa[i as int] as u8) as int == sa[i as int] as int);
            assert((sb[i as int] as u8) as int == sb[i as int] as int);
        }
        i = i + 1;
    }
    assert(sa.take(sb.len() as int) =~= sb);
    if a.len() == b.len() {
        assert(sa =~= sb);
        return true;
    }
    proof {
        assert('\0' <= sa[sb.len() as int] <= '\u{7f}');
        assert((sa[sb.len() as int] as u8) as int == sa[sb.len() as int] as int);
        if sa != sb && sa[sb.len() as int] != '/' {
            assert(!(sb == seq!['/']));
        }
    }
    a[b.len()] == 0x2f
}

/// Compares two paths as `std::path` does.
fn path_eq(a: &ObjectPath, b: &ObjectPath) -> (r: bool)
    ensures
        r == same_path(a@, b@),
{
    let x = key_bytes(a.as_bytes(), Ghost(a@));
    let y = key_bytes(b.as_bytes(), Ghost(b@));
    proof {
        use_type_invariant(a);
        use_type_invariant(b);
        lemma_collapse_chars(a@);
        lemma_collapse_chars(b@);
        lemma_path_chars_ascii(path_key(a@));
        lemma_path_chars_ascii(path_key(b@));
        if x@ == y@ {
            lemma_ascii_bytes_injective(path_key(a@), path_key(b@));
        }
    }
    bytes_eq(x.as_slice(), y.as_slice())
}

impl PartialEq for ObjectPath {
    /// Paths are equal as `std::path` finds them equal (see `same_path`).
    fn eq(&self, other: &ObjectPath) -> (r: bool) {
        path_eq(self, other)
    }
}

impl vstd::std_specs::cmp::PartialEqSpecImpl for ObjectPath {
    open spec fn obeys_eq_spec() -> bool {
        true
    }

    open spec fn eq_spec(&self, other: &ObjectPath) -> bool {
        same_path(self@, other@)
    }
}

impl PartialEq for ObjectPathBuf {
    /// Paths are equal as `std::path` finds them equal (see `same_path`).
    fn eq(&self, other: &ObjectPathBuf) -> (r: bool) {
        path_eq(&self.inner, &other.inner)
    }
}

impl vstd::std_specs::cmp::PartialEqSpecImpl for ObjectPathBuf {
    open spec fn obeys_eq_spec() -> bool {
        true
    }

    open spec fn eq_spec(&self, other: &ObjectPathBuf) -> bool {
        same_path(self@, other@)
    }
}

impl PartialEq<ObjectPath> for ObjectPathBuf {
    /// Paths are equal as `std::path` finds them equal (see `same_path`).
    fn eq(&self, other: &ObjectPath) -> (r: bool) {
        path_eq(&self.inner, other)
    }
}

impl vstd::std_specs::cmp::PartialEqSpecImpl<ObjectPath> for ObjectPathBuf {
    open spec fn obeys_eq_spec() -> bool {
        true
    }

    open spec fn eq_spec(&self, other: &ObjectPath) -> bool {
        same_path(self@, other@)
    }
}

impl core::hash::Hash for ObjectPath {
    /// Hashes as `std::path::Path` hashes the same text, so that a map keyed by paths can be
    /// searched with a `Path`.
    #[verifier::external_body]
    fn hash<H: core::hash::Hasher>(&self, state: &mut H) {
        std::path::Path::new(self.inner.as_str()).hash(state)
    }
}

impl Clone for ObjectPathBuf {
    fn clone(&self) -> (r: ObjectPathBuf)
        ensures
            r@ == self@,
    {
        self.inner.to_owned()
    }
}

impl std::borrow::Borrow<ObjectPath> for ObjectPathBuf {
    /// The path held.
    fn borrow(&self) -> (r: &ObjectPath)
        ensures
            <ObjectPath as View>::view(r) == self@,
    {
        &self.inner
    }
}

impl ObjectPathBuf {
    /// The root path, `/`.
    pub fn new() -> (r: ObjectPathBuf)
        ensures
            r@ == seq!['/'],
    {
        let mut t = String::new();
        push_char(&mut t, '/');
        proof {
            assert(t@ =~= seq!['/']);
            assert(is_path_char(t@[0]));
        }
        ObjectPathBuf { inner: ObjectPath { inner: t } }
    }

    /// An empty path buffer with room for `capacity` bytes.
    pub fn with_capacity(capacity: usize) -> (r: ObjectPathBuf)
        requires
            capacity <= isize::MAX,
        ensures
            r@ == Seq::<char>::empty(),
    {
        let t = string_with_capacity(capacity);
        ObjectPathBuf { inner: ObjectPath { inner: t } }
    }

    /// The path held.
    pub fn as_object_path(&self) -> (r: &ObjectPath)
        ensures
            r@ == self@,
    {
        &self.inner
    }

    /// Takes the text out, leaving an empty path behind.
    fn take_text(&mut self) -> (r: String)
        ensures
            r@ == old(self)@,
            path_chars(r@),
            final(self)@ == Seq::<char>::empty(),
    {
        proof {
            use_type_invariant(&self.inner);
        }
        let mut t = String::new();
        std::mem::swap(&mut t, &mut self.inner.inner);
        t
    }

    /// Empties the path.
    pub fn clear(&mut self)
        ensures
            final(self)@ == Seq::<char>::empty(),
    {
        let _ = self.take_text();
    }

    /// Appends the elements of `path` (a separator goes in between when the buffer is not
    /// empty and does not end with one).
    pub fn push(&mut self, path: &ObjectPath)
        requires
            rooted(path@),
        ensures
            final(self)@ == push_spec(old(self)@, path@),
    {
        let mut t = self.take_text();
        proof {
            lemma_path_chars_ascii(t@);
        }
        let ghost s0 = t@;
        let ghost p = path@;
        let pb = path.as_bytes();
        let a = lead_end_exec(pb, 0, Ghost(p));
        let e = trim_end_exec(pb, pb.len(), Ghost(p));
        let tb = t.as_str().as_bytes();
        let sep = tb.len() > 0 && tb[tb.len() - 1] != 0x2f;
        proof {
            if tb.len() > 0 {
                assert('\0' <= s0[s0.len() - 1] <= '\u{7f}');
            }
            assert(sep == needs_sep(s0));
        }
        if sep {
            push_char(&mut t, '/');
        }
        let ghost s1 = t@;
        proof {
            use_type_invariant(path);
        }
        if a < e {
            let piece = path.inner.as_str().substring_ascii(a, e);
            proof {
                lemma_path_chars_ascii(t@);
                assert forall|i: int| 0 <= i < piece@.len() implies is_path_char(#[trigger] piece@[i]) by {
                    assert(piece@[i] == p[i + a]);
                }
                lemma_path_chars_ascii(piece@);
            }
            push_str(&mut t, piece);
            assert(t@ == s1 + strip_root(p));
        } else {
            assert(s1 + strip_root(p) =~= s1);
        }
        proof {
            use_type_invariant(path);
            assert forall|i: int| 0 <= i < t@.len() implies is_path_char(#[trigger] t@[i]) by {
                if i < s0.len() {
                    assert(t@[i] == s0[i]);
                } else if i < s1.len() {
                    assert(t@[i] == '/');
                } else {
                    assert(t@[i] == p[i - s1.len() + a]);
                }
            }
        }
        self.inner = ObjectPath { inner: t };
    }

    /// Truncates the path to its parent; false (and no change) when it has no last element.
    pub fn pop(&mut self) -> (r: bool)
        ensures
            r == (parent_len(old(self)@) is Some),
            final(self)@ == match parent_spec(old(self)@) {
                Some(p) => p,
                None => old(self)@,
            },
    {
        let mut t = self.take_text();
        proof {
            lemma_path_chars_ascii(t@);
        }
        let ghost s = t@;
        let b = t.as_str().as_bytes();
        let e = trim_end_exec(b, b.len(), Ghost(s));
        if e == 0 {
            self.inner = ObjectPath { inner: t };
            return false;
        }
        let st = name_start_exec(b, e, Ghost(s));
        let m0 = trim_end_exec(b, st, Ghost(s));
        let m = if m0 == 0 && b.len() > 0 && b[0] == 0x2f {
            1
        } else {
            m0
        };
        proof {
            if b.len() > 0 {
                assert('\0' <= s[0] <= '\u{7f}');
            }
        }
        truncate_ascii(&mut t, m);
        proof {
            assert forall|i: int| 0 <= i < t@.len() implies is_path_char(#[trigger] t@[i]) by {
                assert(t@[i] == s[i]);
            }
        }
        self.inner = ObjectPath { inner: t };
        true
    }

    /// Reserves room for `additional` more bytes.
    pub fn reserve(&mut self, additional: usize)
        requires
            old(self)@.len() + additional <= isize::MAX,
        ensures
            final(self)@ == old(self)@,
    {
        let mut t = self.take_text();
        proof {
            lemma_path_chars_ascii(t@);
        }
        reserve(&mut t, additional);
        self.inner = ObjectPath { inner: t };
    }

    /// Reserves room for exactly `additional` more bytes.
    pub fn reserve_exact(&mut self, additional: usize)
        requires
            old(self)@.len() + additional <= isize::MAX,
        ensures
            final(self)@ == old(self)@,
    {
        let mut t = self.take_text();
        proof {
            lemma_path_chars_ascii(t@);
        }
        reserve_exact(&mut t, additional);
        self.inner = ObjectPath { inner: t };
    }
}

/// A child object found under a path, with the interfaces it offers.
pub struct Child {
    path: ObjectPathBuf,
    interface: Vec<String>,
}

impl View for Child {
    type V = (Seq<char>, Seq<String>);

    closed spec fn view(&self) -> (Seq<char>, Seq<String>) {
        (self.path@, self.interface@)
    }
}

impl Child {
    /// A child at `path` that offers `interfaces`.
    pub fn new(path: ObjectPathBuf, interfaces: Vec<String>) -> (r: Child)
        ensures
            r@ == (path@, interfaces@),
    {
        Child { path, interface: interfaces }
    }

    /// The path of the child.
    pub fn path(&self) -> (r: &ObjectPath)
        ensures
            r@ == self@.0,
    {
        self.path.as_object_path()
    }

    /// The interfaces that the child offers.
    pub fn interfaces(&self) -> (r: &[String])
        ensures
            r@ == self@.1,
    {
        self.interface.as_slice()
    }
}

} // verus!
