//! Flags of GATT characteristics and descriptors, by the names that Bluez gives them.
use vstd::prelude::*;

use crate::strbuf::str_eq;

verus! {

/// Flags of a GATT characteristic (Core Specification 5.2, tables 3.5 and 3.8).
#[derive(Clone, Copy, Debug, PartialEq, Eq, Structural)]
pub struct CharFlags {
    pub broadcast: bool,
    pub read: bool,
    pub write_wo_response: bool,
    pub write: bool,
    pub notify: bool,
    pub indicate: bool,
    pub auth_signed_writes: bool,
    pub extended_properties: bool,
    pub reliable_write: bool,
    pub writable_auxiliaries: bool,
    pub encrypt_read: bool,
    pub encrypt_write: bool,
    pub encrypt_auth_read: bool,
    pub encrypt_auth_write: bool,
    pub secure_read: bool,
    pub secure_write: bool,
    pub authorize: bool,
}

/// Flags of a GATT descriptor.
#[derive(Clone, Copy, Debug, PartialEq, Eq, Structural)]
pub struct DescFlags {
    pub read: bool,
    pub write: bool,
    pub encrypt_read: bool,
    pub encrypt_write: bool,
    pub encrypt_auth_read: bool,
    pub encrypt_auth_write: bool,
    pub secure_read: bool,
    pub secure_write: bool,
    pub authorize: bool,
}

/// The texts of a list of names.
pub open spec fn names_view(v: Seq<&str>) -> Seq<Seq<char>> {
    v.map_values(|s: &str| s@)
}

/// `n` when `b` holds, else nothing.
#[verifier::opaque]
pub open spec fn opt_name(b: bool, n: Seq<char>) -> Seq<Seq<char>> {
    if b {
        seq![n]
    } else {
        Seq::empty()
    }
}

/// The names of the characteristic flags that are set, in the order Bluez is given them.
pub open spec fn char_flag_names(f: CharFlags) -> Seq<Seq<char>> {
    opt_name(f.broadcast, "broadcast"@)
        + opt_name(f.read, "read"@)
        + opt_name(f.write, "write"@)
        + opt_name(f.write_wo_response, "write-without-response"@)
        + opt_name(f.notify, "notify"@)
        + opt_name(f.indicate, "indicate"@)
        + opt_name(f.extended_properties, "extended-properties"@)
        + opt_name(f.reliable_write, "reliable-write"@)
        + opt_name(f.encrypt_read, "encrypt-read"@)
        + opt_name(f.encrypt_write, "encrypt-write"@)
        + opt_name(f.encrypt_auth_read, "encrypt-authenticated-read"@)
        + opt_name(f.encrypt_auth_write, "encrypt-authenticated-write"@)
        + opt_name(f.secure_write, "secure-write"@)
        + opt_name(f.secure_read, "secure-read"@)
}

/// A name that Bluez uses for a characteristic flag.
#[verifier::opaque]
pub open spec fn is_char_flag_name(n: Seq<char>) -> bool {
    n == "broadcast"@ || n == "read"@ || n == "write-without-response"@ || n == "write"@ || n == "notify"@ || n == "indicate"@ || n == "authenticated-signed-writes"@ || n == "extended-properties"@ || n == "reliable-write"@ || n == "writable-auxiliaries"@ || n == "encrypt-read"@ || n == "encrypt-write"@ || n == "encrypt-authenticated-read"@ || n == "encrypt-authenticated-write"@ || n == "secure-read"@ || n == "secure-write"@ || n == "authorize"@
}

/// Every name in `s` is one Bluez uses for a characteristic flag.
#[verifier::opaque]
pub open spec fn all_char_flag_names(s: Seq<Seq<char>>) -> bool {
    forall|i: int| 0 <= i < s.len() ==> is_char_flag_name(#[trigger] s[i])
}

/// `names` holds the name `n`.
#[verifier::opaque]
pub open spec fn names_have(names: Seq<Seq<char>>, n: Seq<char>) -> bool {
    names.contains(n)
}

/// The characteristic flags named in `names`.
pub open spec fn char_flags_of(names: Seq<Seq<char>>) -> CharFlags {
    CharFlags {
        broadcast: names_have(names, "broadcast"@),
        read: names_have(names, "read"@),
        write_wo_response: names_have(names, "write-without-response"@),
        write: names_have(names, "write"@),
        notify: names_have(names, "notify"@),
        indicate: names_have(names, "indicate"@),
        auth_signed_writes: names_have(names, "authenticated-signed-writes"@),
        extended_properties: names_have(names, "extended-properties"@),
        reliable_write: names_have(names, "reliable-write"@),
        writable_auxiliaries: names_have(names, "writable-auxiliaries"@),
        encrypt_read: names_have(names, "encrypt-read"@),
        encrypt_write: names_have(names, "encrypt-write"@),
        encrypt_auth_read: names_have(names, "encrypt-authenticated-read"@),
        encrypt_auth_write: names_have(names, "encrypt-authenticated-write"@),
        secure_read: names_have(names, "secure-read"@),
        secure_write: names_have(names, "secure-write"@),
        authorize: names_have(names, "authorize"@),
    }
}

/// The names of the descriptor flags that are set, in the order Bluez is given them.
pub open spec fn desc_flag_names(f: DescFlags) -> Seq<Seq<char>> {
    opt_name(f.read, "read"@)
        + opt_name(f.write, "write"@)
        + opt_name(f.encrypt_read, "encrypt-read"@)
        + opt_name(f.encrypt_write, "encrypt-write"@)
        + opt_name(f.encrypt_auth_read, "encrypt-authenticated-read"@)
        + opt_name(f.encrypt_auth_write, "encrypt-authenticated-write"@)
        + opt_name(f.secure_write, "secure-write"@)
        + opt_name(f.secure_read, "secure-read"@)
}

/// Appends `name` when `b` holds.
fn push_name(v: &mut Vec<&'static str>, b: bool, name: &'static str)
    ensures
        names_view(final(v)@) == names_view(old(v)@) + opt_name(b, name@),
{
    reveal(opt_name);
    if b {
        v.push(name);
        assert(names_view(final(v)@) =~= names_view(old(v)@) + opt_name(b, name@));
    } else {
        assert(names_view(old(v)@) + opt_name(b, name@) =~= names_view(old(v)@));
    }
}

/// Appends `name`, a name Bluez uses for a characteristic flag, when `b` holds.
fn push_flag_name(v: &mut Vec<&'static str>, b: bool, name: &'static str)
    requires
        all_char_flag_names(names_view(old(v)@)),
        is_char_flag_name(name@),
    ensures
        names_view(final(v)@) == names_view(old(v)@) + opt_name(b, name@),
        all_char_flag_names(names_view(final(v)@)),
{
    let ghost before = names_view(v@);
    push_name(v, b, name);
    proof {
        lemma_known_concat_opt(before, b, name@);
    }
}

impl Default for CharFlags {
    fn default() -> (r: CharFlags)
        ensures
            !r.broadcast,
            !r.read,
            !r.write_wo_response,
            !r.write,
            !r.notify,
            !r.indicate,
            !r.auth_signed_writes,
            !r.extended_properties,
            !r.reliable_write,
            !r.writable_auxiliaries,
            !r.encrypt_read,
            !r.encrypt_write,
            !r.encrypt_auth_read,
            !r.encrypt_auth_write,
            !r.secure_read,
            !r.secure_write,
            !r.authorize,
    {
        CharFlags {
            broadcast: false,
            read: false,
            write_wo_response: false,
            write: false,
            notify: false,
            indicate: false,
            auth_signed_writes: false,
            extended_properties: false,
            reliable_write: false,
            writable_auxiliaries: false,
            encrypt_read: false,
            encrypt_write: false,
            encrypt_auth_read: false,
            encrypt_auth_write: false,
            secure_read: false,
            secure_write: false,
            authorize: false,
        }
    }
}

impl Default for DescFlags {
    fn default() -> (r: DescFlags)
        ensures
            !r.read,
            !r.write,
            !r.encrypt_read,
            !r.encrypt_write,
            !r.encrypt_auth_read,
            !r.encrypt_auth_write,
            !r.secure_read,
            !r.secure_write,
            !r.authorize,
    {
        DescFlags {
            read: false,
            write: false,
            encrypt_read: false,
            encrypt_write: false,
            encrypt_auth_read: false,
            encrypt_auth_write: false,
            secure_read: false,
            secure_write: false,
            authorize: false,
        }
    }
}

impl CharFlags {
    /// The names of the flags that are set. Signed writes, writable auxiliaries and
    /// authorization are not supported.
    #[verifier::rlimit(100)]
    pub fn to_strings(&self) -> (r: Vec<&'static str>)
        requires
            !self.auth_signed_writes,
            !self.writable_auxiliaries,
            !self.authorize,
        ensures
            names_view(r@) == char_flag_names(*self),
            all_char_flag_names(names_view(r@)),
    {
        proof {
            lemma_char_flag_names_are_names();
        }
        let mut ret: Vec<&'static str> = Vec::new();
        assert(names_view(ret@) =~= Seq::<Seq<char>>::empty());
        assert(all_char_flag_names(names_view(ret@))) by {
            reveal(all_char_flag_names);
        }
        push_flag_name(&mut ret, self.broadcast, "broadcast");
        push_flag_name(&mut ret, self.read, "read");
        push_flag_name(&mut ret, self.write, "write");
        push_flag_name(&mut ret, self.write_wo_response, "write-without-response");
        push_flag_name(&mut ret, self.notify, "notify");
        push_flag_name(&mut ret, self.indicate, "indicate");
        push_flag_name(&mut ret, self.extended_properties, "extended-properties");
        push_flag_name(&mut ret, self.reliable_write, "reliable-write");
        push_flag_name(&mut ret, self.encrypt_read, "encrypt-read");
        push_flag_name(&mut ret, self.encrypt_write, "encrypt-write");
        push_flag_name(&mut ret, self.encrypt_auth_read, "encrypt-authenticated-read");
        push_flag_name(&mut ret, self.encrypt_auth_write, "encrypt-authenticated-write");
        push_flag_name(&mut ret, self.secure_write, "secure-write");
        push_flag_name(&mut ret, self.secure_read, "secure-read");
        assert(names_view(ret@) =~= char_flag_names(*self));
        ret
    }

    /// The flags named in `flags`; every name is one that Bluez uses for a flag.
    pub fn from_strings(flags: &[&str]) -> (r: CharFlags)
        requires
            all_char_flag_names(names_view(flags@)),
        ensures
            r == char_flags_of(names_view(flags@)),
    {
        CharFlags {
            broadcast: names_contain(flags, "broadcast"),
            read: names_contain(flags, "read"),
            write_wo_response: names_contain(flags, "write-without-response"),
            write: names_contain(flags, "write"),
            notify: names_contain(flags, "notify"),
            indicate: names_contain(flags, "indicate"),
            auth_signed_writes: names_contain(flags, "authenticated-signed-writes"),
            extended_properties: names_contain(flags, "extended-properties"),
            reliable_write: names_contain(flags, "reliable-write"),
            writable_auxiliaries: names_contain(flags, "writable-auxiliaries"),
            encrypt_read: names_contain(flags, "encrypt-read"),
            encrypt_write: names_contain(flags, "encrypt-write"),
            encrypt_auth_read: names_contain(flags, "encrypt-authenticated-read"),
            encrypt_auth_write: names_contain(flags, "encrypt-authenticated-write"),
            secure_read: names_contain(flags, "secure-read"),
            secure_write: names_contain(flags, "secure-write"),
            authorize: names_contain(flags, "authorize"),
        }
    }
}

/// Whether `n` is a name that Bluez uses for a characteristic flag.
fn is_char_flag_name_exec(n: &str) -> (r: bool)
    ensures
        r == is_char_flag_name(n@),
{
    proof {
        reveal(is_char_flag_name);
    }
    str_eq(n, "broadcast")
        || str_eq(n, "read")
        || str_eq(n, "write-without-response")
        || str_eq(n, "write")
        || str_eq(n, "notify")
        || str_eq(n, "indicate")
        || str_eq(n, "authenticated-signed-writes")
        || str_eq(n, "extended-properties")
        || str_eq(n, "reliable-write")
        || str_eq(n, "writable-auxiliaries")
        || str_eq(n, "encrypt-read")
        || str_eq(n, "encrypt-write")
        || str_eq(n, "encrypt-authenticated-read")
        || str_eq(n, "encrypt-authenticated-write")
        || str_eq(n, "secure-read")
        || str_eq(n, "secure-write")
        || str_eq(n, "authorize")
}

/// Whether every name in `flags` is one that Bluez uses for a characteristic flag (the
/// condition under which `CharFlags::from_strings` reads them).
pub fn known_char_flag_names(flags: &[&str]) -> (r: bool)
    ensures
        r == all_char_flag_names(names_view(flags@)),
{
    proof {
        reveal(all_char_flag_names);
    }
    let mut i: usize = 0;
    while i < flags.len()
        invariant
            i <= flags@.len(),
            forall|j: int| 0 <= j < i ==> is_char_flag_name(#[trigger] names_view(flags@)[j]),
        decreases flags@.len() - i,
    {
        if !is_char_flag_name_exec(flags[i]) {
            proof {
                reveal(all_char_flag_names);
                assert(!is_char_flag_name(names_view(flags@)[i as int]));
            }
            return false;
        }
        i = i + 1;
    }
    true
}

/// Whether `flags` holds the name `name`.
fn names_contain(flags: &[&str], name: &str) -> (r: bool)
    ensures
        r == names_have(names_view(flags@), name@),
{
    proof {
        reveal(names_have);
    }
    let mut i: usize = 0;
    while i < flags.len()
        invariant
            i <= flags@.len(),
            forall|j: int| 0 <= j < i ==> flags@[j]@ != name@,
        decreases flags@.len() - i,
    {
        if str_eq(flags[i], name) {
            proof {
                reveal(names_have);
                assert(names_view(flags@)[i as int] == name@);
            }
            return true;
        }
        i = i + 1;
    }
    proof {
        reveal(names_have);
        if names_view(flags@).contains(name@) {
            let k = choose|k: int| 0 <= k < names_view(flags@).len() && names_view(flags@)[k] == name@;
            assert(flags@[k]@ == name@);
        }
    }
    false
}

impl DescFlags {
    /// The names of the flags that are set. Authorization is not supported.
    pub fn to_strings(&self) -> (r: Vec<&'static str>)
        requires
            !self.authorize,
        ensures
            names_view(r@) == desc_flag_names(*self),
    {
        let mut ret: Vec<&'static str> = Vec::new();
        assert(names_view(ret@) =~= Seq::<Seq<char>>::empty());
        push_name(&mut ret, self.read, "read");
        push_name(&mut ret, self.write, "write");
        push_name(&mut ret, self.encrypt_read, "encrypt-read");
        push_name(&mut ret, self.encrypt_write, "encrypt-write");
        push_name(&mut ret, self.encrypt_auth_read, "encrypt-authenticated-read");
        push_name(&mut ret, self.encrypt_auth_write, "encrypt-authenticated-write");
        push_name(&mut ret, self.secure_write, "secure-write");
        push_name(&mut ret, self.secure_read, "secure-read");
        assert(names_view(ret@) =~= desc_flag_names(*self));
        ret
    }
}

/// The lengths and first characters of the names Bluez uses for the characteristic flags
/// (which tell them apart).
pub open spec fn char_flag_name_facts() -> bool {
    "broadcast"@.len() == 9
        && "broadcast"@[0] == 'b'
        && "read"@.len() == 4
        && "read"@[0] == 'r'
        && "write-without-response"@.len() == 22
        && "write-without-response"@[0] == 'w'
        && "write"@.len() == 5
        && "write"@[0] == 'w'
        && "notify"@.len() == 6
        && "notify"@[0] == 'n'
        && "indicate"@.len() == 8
        && "indicate"@[0] == 'i'
        && "authenticated-signed-writes"@.len() == 27
        && "authenticated-signed-writes"@[0] == 'a'
        && "extended-properties"@.len() == 19
        && "extended-properties"@[0] == 'e'
        && "reliable-write"@.len() == 14
        && "reliable-write"@[0] == 'r'
        && "writable-auxiliaries"@.len() == 20
        && "writable-auxiliaries"@[0] == 'w'
        && "encrypt-read"@.len() == 12
        && "encrypt-read"@[0] == 'e'
        && "encrypt-write"@.len() == 13
        && "encrypt-write"@[0] == 'e'
        && "encrypt-authenticated-read"@.len() == 26
        && "encrypt-authenticated-read"@[0] == 'e'
        && "encrypt-authenticated-write"@.len() == 27
        && "encrypt-authenticated-write"@[0] == 'e'
        && "secure-read"@.len() == 11
        && "secure-read"@[0] == 's'
        && "secure-write"@.len() == 12
        && "secure-write"@[0] == 's'
        && "authorize"@.len() == 9
        && "authorize"@[0] == 'a'
}

proof fn reveal_char_flag_names()
    ensures
        char_flag_name_facts(),
{
    reveal_strlit("broadcast");
    reveal_strlit("read");
    reveal_strlit("write-without-response");
    reveal_strlit("write");
    reveal_strlit("notify");
    reveal_strlit("indicate");
    reveal_strlit("authenticated-signed-writes");
    reveal_strlit("extended-properties");
    reveal_strlit("reliable-write");
    reveal_strlit("writable-auxiliaries");
    reveal_strlit("encrypt-read");
    reveal_strlit("encrypt-write");
    reveal_strlit("encrypt-authenticated-read");
    reveal_strlit("encrypt-authenticated-write");
    reveal_strlit("secure-read");
    reveal_strlit("secure-write");
    reveal_strlit("authorize");
}

proof fn lemma_char_flag_names_are_names()
    ensures
        is_char_flag_name("broadcast"@),
        is_char_flag_name("read"@),
        is_char_flag_name("write-without-response"@),
        is_char_flag_name("write"@),
        is_char_flag_name("notify"@),
        is_char_flag_name("indicate"@),
        is_char_flag_name("authenticated-signed-writes"@),
        is_char_flag_name("extended-properties"@),
        is_char_flag_name("reliable-write"@),
        is_char_flag_name("writable-auxiliaries"@),
        is_char_flag_name("encrypt-read"@),
        is_char_flag_name("encrypt-write"@),
        is_char_flag_name("encrypt-authenticated-read"@),
        is_char_flag_name("encrypt-authenticated-write"@),
        is_char_flag_name("secure-read"@),
        is_char_flag_name("secure-write"@),
        is_char_flag_name("authorize"@),
{
    reveal(is_char_flag_name);
}

proof fn lemma_contains_concat_opt(s: Seq<Seq<char>>, b: bool, x: Seq<char>, y: Seq<char>)
    ensures
        names_have(s + opt_name(b, x), y) == (names_have(s, y) || (b && y == x)),
{
    reveal(names_have);
    reveal(opt_name);
    if b {
        assert(s + opt_name(b, x) =~= s.push(x));
        if s.contains(y) {
            let k = choose|k: int| 0 <= k < s.len() && s[k] == y;
            assert(s.push(x)[k] == y);
        }
        if y == x {
            assert(s.push(x)[s.len() as int] == y);
        }
        if s.push(x).contains(y) {
            let k = choose|k: int| 0 <= k < s.push(x).len() && s.push(x)[k] == y;
            if k < s.len() {
                assert(s[k] == y);
            }
        }
    } else {
        assert(s + opt_name(b, x) =~= s);
    }
}

proof fn lemma_known_concat_opt(s: Seq<Seq<char>>, b: bool, x: Seq<char>)
    requires
        all_char_flag_names(s),
        b ==> is_char_flag_name(x),
    ensures
        all_char_flag_names(s + opt_name(b, x)),
{
    reveal(all_char_flag_names);
    reveal(opt_name);
    assert forall|i: int| 0 <= i < (s + opt_name(b, x)).len() implies is_char_flag_name(
        #[trigger] (s + opt_name(b, x))[i],
    ) by {
        if i >= s.len() {
            assert((s + opt_name(b, x))[i] == x);
        } else {
            assert((s + opt_name(b, x))[i] == s[i]);
        }
    }
}

/// The name `y` is among the names of the flags of `f` exactly when it names a flag of `f`
/// that is set.
proof fn lemma_names_have(f: CharFlags, y: Seq<char>)
    ensures
        names_have(char_flag_names(f), y) == ({
        ||| f.broadcast && y == "broadcast"@
        ||| f.read && y == "read"@
        ||| f.write && y == "write"@
        ||| f.write_wo_response && y == "write-without-response"@
        ||| f.notify && y == "notify"@
        ||| f.indicate && y == "indicate"@
        ||| f.extended_properties && y == "extended-properties"@
        ||| f.reliable_write && y == "reliable-write"@
        ||| f.encrypt_read && y == "encrypt-read"@
        ||| f.encrypt_write && y == "encrypt-write"@
        ||| f.encrypt_auth_read && y == "encrypt-authenticated-read"@
        ||| f.encrypt_auth_write && y == "encrypt-authenticated-write"@
        ||| f.secure_write && y == "secure-write"@
        ||| f.secure_read && y == "secure-read"@
        }),
{
    let a0: Seq<Seq<char>> = Seq::empty();
    assert(!names_have(a0, y)) by {
        reveal(names_have);
    }
    lemma_contains_concat_opt(a0, f.broadcast, "broadcast"@, y);
    let a1 = a0 + opt_name(f.broadcast, "broadcast"@);
    lemma_contains_concat_opt(a1, f.read, "read"@, y);
    let a2 = a1 + opt_name(f.read, "read"@);
    lemma_contains_concat_opt(a2, f.write, "write"@, y);
    let a3 = a2 + opt_name(f.write, "write"@);
    lemma_contains_concat_opt(a3, f.write_wo_response, "write-without-response"@, y);
    let a4 = a3 + opt_name(f.write_wo_response, "write-without-response"@);
    lemma_contains_concat_opt(a4, f.notify, "notify"@, y);
    let a5 = a4 + opt_name(f.notify, "notify"@);
    lemma_contains_concat_opt(a5, f.indicate, "indicate"@, y);
    let a6 = a5 + opt_name(f.indicate, "indicate"@);
    lemma_contains_concat_opt(a6, f.extended_properties, "extended-properties"@, y);
    let a7 = a6 + opt_name(f.extended_properties, "extended-properties"@);
    lemma_contains_concat_opt(a7, f.reliable_write, "reliable-write"@, y);
    let a8 = a7 + opt_name(f.reliable_write, "reliable-write"@);
    lemma_contains_concat_opt(a8, f.encrypt_read, "encrypt-read"@, y);
    let a9 = a8 + opt_name(f.encrypt_read, "encrypt-read"@);
    lemma_contains_concat_opt(a9, f.encrypt_write, "encrypt-write"@, y);
    let a10 = a9 + opt_name(f.encrypt_write, "encrypt-write"@);
    lemma_contains_concat_opt(a10, f.encrypt_auth_read, "encrypt-authenticated-read"@, y);
    let a11 = a10 + opt_name(f.encrypt_auth_read, "encrypt-authenticated-read"@);
    lemma_contains_concat_opt(a11, f.encrypt_auth_write, "encrypt-authenticated-write"@, y);
    let a12 = a11 + opt_name(f.encrypt_auth_write, "encrypt-authenticated-write"@);
    lemma_contains_concat_opt(a12, f.secure_write, "secure-write"@, y);
    let a13 = a12 + opt_name(f.secure_write, "secure-write"@);
    lemma_contains_concat_opt(a13, f.secure_read, "secure-read"@, y);
    let a14 = a13 + opt_name(f.secure_read, "secure-read"@);
    assert(a14 == char_flag_names(f));
}

/// The name `y` is among the names of the descriptor flags of `f` exactly when it names a
/// flag of `f` that is set.
proof fn lemma_desc_names_have(f: DescFlags, y: Seq<char>)
    ensures
        names_have(desc_flag_names(f), y) == ({
        ||| f.read && y == "read"@
        ||| f.write && y == "write"@
        ||| f.encrypt_read && y == "encrypt-read"@
        ||| f.encrypt_write && y == "encrypt-write"@
        ||| f.encrypt_auth_read && y == "encrypt-authenticated-read"@
        ||| f.encrypt_auth_write && y == "encrypt-authenticated-write"@
        ||| f.secure_write && y == "secure-write"@
        ||| f.secure_read && y == "secure-read"@
        }),
{
    let a0: Seq<Seq<char>> = Seq::empty();
    assert(!names_have(a0, y)) by {
        reveal(names_have);
    }
    lemma_contains_concat_opt(a0, f.read, "read"@, y);
    let a1 = a0 + opt_name(f.read, "read"@);
    lemma_contains_concat_opt(a1, f.write, "write"@, y);
    let a2 = a1 + opt_name(f.write, "write"@);
    lemma_contains_concat_opt(a2, f.encrypt_read, "encrypt-read"@, y);
    let a3 = a2 + opt_name(f.encrypt_read, "encrypt-read"@);
    lemma_contains_concat_opt(a3, f.encrypt_write, "encrypt-write"@, y);
    let a4 = a3 + opt_name(f.encrypt_write, "encrypt-write"@);
    lemma_contains_concat_opt(a4, f.encrypt_auth_read, "encrypt-authenticated-read"@, y);
    let a5 = a4 + opt_name(f.encrypt_auth_read, "encrypt-authenticated-read"@);
    lemma_contains_concat_opt(a5, f.encrypt_auth_write, "encrypt-authenticated-write"@, y);
    let a6 = a5 + opt_name(f.encrypt_auth_write, "encrypt-authenticated-write"@);
    lemma_contains_concat_opt(a6, f.secure_write, "secure-write"@, y);
    let a7 = a6 + opt_name(f.secure_write, "secure-write"@);
    lemma_contains_concat_opt(a7, f.secure_read, "secure-read"@, y);
    let a8 = a7 + opt_name(f.secure_read, "secure-read"@);
    assert(a8 == desc_flag_names(f));
}

/// Each descriptor flag that is set, and only such a flag, gives Bluez its name.
pub proof fn lemma_desc_flag_names(f: DescFlags)
    ensures
        names_have(desc_flag_names(f), "read"@) == f.read,
        names_have(desc_flag_names(f), "write"@) == f.write,
        names_have(desc_flag_names(f), "encrypt-read"@) == f.encrypt_read,
        names_have(desc_flag_names(f), "encrypt-write"@) == f.encrypt_write,
        names_have(desc_flag_names(f), "encrypt-authenticated-read"@) == f.encrypt_auth_read,
        names_have(desc_flag_names(f), "encrypt-authenticated-write"@) == f.encrypt_auth_write,
        names_have(desc_flag_names(f), "secure-write"@) == f.secure_write,
        names_have(desc_flag_names(f), "secure-read"@) == f.secure_read,
        !names_have(desc_flag_names(f), "authorize"@),
{
    reveal_char_flag_names();
    lemma_desc_names_have(f, "read"@);
    lemma_desc_names_have(f, "write"@);
    lemma_desc_names_have(f, "encrypt-read"@);
    lemma_desc_names_have(f, "encrypt-write"@);
    lemma_desc_names_have(f, "encrypt-authenticated-read"@);
    lemma_desc_names_have(f, "encrypt-authenticated-write"@);
    lemma_desc_names_have(f, "secure-write"@);
    lemma_desc_names_have(f, "secure-read"@);
    lemma_desc_names_have(f, "authorize"@);
}

/// Each characteristic flag that is set, and only such a flag, gives Bluez its name (the
/// unsupported flags give none).
pub proof fn lemma_char_flag_names(f: CharFlags)
    ensures
        names_have(char_flag_names(f), "broadcast"@) == f.broadcast,
        names_have(char_flag_names(f), "read"@) == f.read,
        names_have(char_flag_names(f), "write"@) == f.write,
        names_have(char_flag_names(f), "write-without-response"@) == f.write_wo_response,
        names_have(char_flag_names(f), "notify"@) == f.notify,
        names_have(char_flag_names(f), "indicate"@) == f.indicate,
        names_have(char_flag_names(f), "extended-properties"@) == f.extended_properties,
        names_have(char_flag_names(f), "reliable-write"@) == f.reliable_write,
        names_have(char_flag_names(f), "encrypt-read"@) == f.encrypt_read,
        names_have(char_flag_names(f), "encrypt-write"@) == f.encrypt_write,
        names_have(char_flag_names(f), "encrypt-authenticated-read"@) == f.encrypt_auth_read,
        names_have(char_flag_names(f), "encrypt-authenticated-write"@) == f.encrypt_auth_write,
        names_have(char_flag_names(f), "secure-write"@) == f.secure_write,
        names_have(char_flag_names(f), "secure-read"@) == f.secure_read,
        !names_have(char_flag_names(f), "authenticated-signed-writes"@),
        !names_have(char_flag_names(f), "writable-auxiliaries"@),
        !names_have(char_flag_names(f), "authorize"@),
{
    reveal_char_flag_names();
    lemma_names_have(f, "broadcast"@);
    lemma_names_have(f, "read"@);
    lemma_names_have(f, "write"@);
    lemma_names_have(f, "write-without-response"@);
    lemma_names_have(f, "notify"@);
    lemma_names_have(f, "indicate"@);
    lemma_names_have(f, "extended-properties"@);
    lemma_names_have(f, "reliable-write"@);
    lemma_names_have(f, "encrypt-read"@);
    lemma_names_have(f, "encrypt-write"@);
    lemma_names_have(f, "encrypt-authenticated-read"@);
    lemma_names_have(f, "encrypt-authenticated-write"@);
    lemma_names_have(f, "secure-write"@);
    lemma_names_have(f, "secure-read"@);
    lemma_names_have(f, "authenticated-signed-writes"@);
    lemma_names_have(f, "writable-auxiliaries"@);
    lemma_names_have(f, "authorize"@);
}

/// Naming the characteristic flags that are set and reading the names back gives the same
/// flags.
pub proof fn lemma_char_flags_roundtrip(f: CharFlags)
    requires
        !f.auth_signed_writes,
        !f.writable_auxiliaries,
        !f.authorize,
    ensures
        char_flags_of(char_flag_names(f)) == f,
{
    reveal_char_flag_names();
    lemma_names_have(f, "broadcast"@);
    lemma_names_have(f, "read"@);
    lemma_names_have(f, "write-without-response"@);
    lemma_names_have(f, "write"@);
    lemma_names_have(f, "notify"@);
    lemma_names_have(f, "indicate"@);
    lemma_names_have(f, "authenticated-signed-writes"@);
    lemma_names_have(f, "extended-properties"@);
    lemma_names_have(f, "reliable-write"@);
    lemma_names_have(f, "writable-auxiliaries"@);
    lemma_names_have(f, "encrypt-read"@);
    lemma_names_have(f, "encrypt-write"@);
    lemma_names_have(f, "encrypt-authenticated-read"@);
    lemma_names_have(f, "encrypt-authenticated-write"@);
    lemma_names_have(f, "secure-read"@);
    lemma_names_have(f, "secure-write"@);
    lemma_names_have(f, "authorize"@);
}

} // verus!
