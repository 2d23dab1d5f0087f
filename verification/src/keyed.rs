//! Lists of GATT attributes in which no two items share a UUID: adding an item replaces the
//! one with the same UUID in place, else appends it; removing takes out the item with a UUID.
use vstd::prelude::*;

use crate::uuid::UUID;

verus! {

/// An item with a UUID.
pub trait UuidKeyed: Sized {
    spec fn key(&self) -> UUID;

    fn key_of(&self) -> (r: UUID)
        ensures
            r == self.key(),
    ;
}

/// No two items of `s` share a UUID.
pub open spec fn unique_keys<T: UuidKeyed>(s: Seq<T>) -> bool {
    forall|i: int, j: int| 0 <= i < j < s.len() ==> #[trigger] s[i].key() != #[trigger] s[j].key()
}

/// Some item of `s` has the UUID `k`.
pub open spec fn has_key<T: UuidKeyed>(s: Seq<T>, k: UUID) -> bool {
    exists|i: int| 0 <= i < s.len() && #[trigger] s[i].key() == k
}

/// The position of the first item of `s` with the UUID `k`.
pub open spec fn key_index<T: UuidKeyed>(s: Seq<T>, k: UUID) -> int {
    choose|i: int| 0 <= i < s.len() && #[trigger] s[i].key() == k && forall|j: int|
        0 <= j < i ==> #[trigger] s[j].key() != k
}

/// `s` with `x` in place of the item with its UUID, or with `x` appended.
pub open spec fn upsert_spec<T: UuidKeyed>(s: Seq<T>, x: T) -> Seq<T> {
    if has_key(s, x.key()) {
        s.update(key_index(s, x.key()), x)
    } else {
        s.push(x)
    }
}

/// `s` without the item with the UUID `k`.
pub open spec fn remove_key_spec<T: UuidKeyed>(s: Seq<T>, k: UUID) -> Seq<T> {
    if has_key(s, k) {
        s.remove(key_index(s, k))
    } else {
        s
    }
}

/// The item of `s` with the UUID `k`, if there is one.
pub open spec fn item_with_key<T: UuidKeyed>(s: Seq<T>, k: UUID) -> Option<T> {
    if has_key(s, k) {
        Some(s[key_index(s, k)])
    } else {
        None
    }
}

proof fn lemma_key_index<T: UuidKeyed>(s: Seq<T>, k: UUID)
    requires
        has_key(s, k),
    ensures
        0 <= key_index(s, k) < s.len(),
        s[key_index(s, k)].key() == k,
        forall|j: int| 0 <= j < key_index(s, k) ==> #[trigger] s[j].key() != k,
{
    let i = choose|i: int| 0 <= i < s.len() && #[trigger] s[i].key() == k;
    lemma_first_key(s, k, i);
}

proof fn lemma_first_key<T: UuidKeyed>(s: Seq<T>, k: UUID, i: int)
    requires
        0 <= i < s.len(),
        s[i].key() == k,
    ensures
        exists|m: int| 0 <= m < s.len() && #[trigger] s[m].key() == k && forall|j: int|
            0 <= j < m ==> #[trigger] s[j].key() != k,
    decreases i,
{
    if exists|j: int| 0 <= j < i && #[trigger] s[j].key() == k {
        let j = choose|j: int| 0 <= j < i && #[trigger] s[j].key() == k;
        lemma_first_key(s, k, j);
    } else {
        assert(forall|j: int| 0 <= j < i ==> #[trigger] s[j].key() != k);
    }
}

/// The position of the first item of `v` with the UUID `k`.
pub fn position_of<T: UuidKeyed>(v: &Vec<T>, k: UUID) -> (r: Option<usize>)
    ensures
        match r {
            Some(i) => has_key(v@, k) && i as int == key_index(v@, k) && i < v@.len(),
            None => !has_key(v@, k),
        },
{
    let mut i: usize = 0;
    while i < v.len()
        invariant
            i <= v@.len(),
            forall|j: int| 0 <= j < i ==> #[trigger] v@[j].key() != k,
        decreases v@.len() - i,
    {
        if v[i].key_of() == k {
            proof {
                assert(has_key(v@, k));
                lemma_key_index(v@, k);
                let m = key_index(v@, k);
                if m < i {
                    assert(v@[m].key() != k);
                }
                if m > i {
                    assert(v@[i as int].key() != k);
                }
            }
            return Some(i);
        }
        i = i + 1;
    }
    None
}

/// Puts `x` in place of the item of `v` with the same UUID, or appends it.
pub fn upsert<T: UuidKeyed>(v: &mut Vec<T>, x: T)
    ensures
        final(v)@ == upsert_spec(old(v)@, x),
{
    let k = x.key_of();
    match position_of(v, k) {
        Some(i) => {
            v.set(i, x);
        },
        None => {
            v.push(x);
        },
    }
}

/// Takes the item with the UUID `k` out of `v`, if there is one.
pub fn remove_key<T: UuidKeyed>(v: &mut Vec<T>, k: UUID) -> (r: Option<T>)
    ensures
        final(v)@ == remove_key_spec(old(v)@, k),
        r == item_with_key(old(v)@, k),
{
    match position_of(v, k) {
        Some(i) => Some(v.remove(i)),
        None => None,
    }
}

/// Adding an item to a list without shared UUIDs keeps it so; the list then has the item
/// under its UUID, and every other UUID has the same item as before.
pub proof fn lemma_upsert<T: UuidKeyed>(s: Seq<T>, x: T)
    requires
        unique_keys(s),
    ensures
        unique_keys(upsert_spec(s, x)),
        item_with_key(upsert_spec(s, x), x.key()) == Some(x),
        forall|k: UUID| k != x.key() ==> #[trigger] item_with_key(upsert_spec(s, x), k) == item_with_key(s, k),
{
    let t = upsert_spec(s, x);
    if has_key(s, x.key()) {
        lemma_key_index(s, x.key());
        let i = key_index(s, x.key());
        assert forall|a: int, b: int| 0 <= a < b < t.len() implies #[trigger] t[a].key()
            != #[trigger] t[b].key() by {
            if a == i {
                assert(s[b].key() != s[i].key());
            } else if b == i {
                assert(s[a].key() != s[i].key());
            }
        }
        assert(has_key(t, x.key())) by {
            assert(t[i].key() == x.key());
        }
        lemma_key_index(t, x.key());
        assert forall|k: UUID| k != x.key() implies #[trigger] item_with_key(t, k) == item_with_key(s, k) by {
            lemma_item_same(s, t, k);
        }
    } else {
        assert forall|a: int, b: int| 0 <= a < b < t.len() implies #[trigger] t[a].key()
            != #[trigger] t[b].key() by {
            if b == s.len() {
                assert(t[b] == x);
                assert(t[a] == s[a]);
            }
        }
        assert(has_key(t, x.key())) by {
            assert(t[s.len() as int].key() == x.key());
        }
        lemma_key_index(t, x.key());
        let m = key_index(t, x.key());
        if m < s.len() {
            assert(t[m] == s[m]);
        }
        assert forall|k: UUID| k != x.key() implies #[trigger] item_with_key(t, k) == item_with_key(s, k) by {
            lemma_item_same(s, t, k);
        }
    }
}

/// Where two lists agree on every item whose UUID is `k` (and have such items at the same
/// places), they give the same item for `k`.
proof fn lemma_item_same<T: UuidKeyed>(s: Seq<T>, t: Seq<T>, k: UUID)
    requires
        unique_keys(s),
        unique_keys(t),
        forall|i: int| 0 <= i < s.len() && #[trigger] s[i].key() == k ==> i < t.len() && t[i] == s[i],
        forall|i: int| 0 <= i < t.len() && #[trigger] t[i].key() == k ==> i < s.len() && t[i] == s[i],
    ensures
        item_with_key(t, k) == item_with_key(s, k),
{
    if has_key(s, k) {
        lemma_key_index(s, k);
        let i = key_index(s, k);
        assert(t[i] == s[i]);
        assert(has_key(t, k));
        lemma_key_index(t, k);
        let j = key_index(t, k);
        if j != i {
            assert(t[j] == s[j]);
        }
    } else {
        if has_key(t, k) {
            lemma_key_index(t, k);
            let j = key_index(t, k);
            assert(t[j] == s[j]);
        }
    }
}

/// Removing a UUID from a list without shared UUIDs keeps it so, and the list then has no
/// item under that UUID; every other UUID keeps its item.
pub proof fn lemma_remove_key<T: UuidKeyed>(s: Seq<T>, k: UUID)
    requires
        unique_keys(s),
    ensures
        unique_keys(remove_key_spec(s, k)),
        !has_key(remove_key_spec(s, k), k),
        forall|k2: UUID| k2 != k ==> #[trigger] item_with_key(remove_key_spec(s, k), k2) == item_with_key(s, k2),
{
    let t = remove_key_spec(s, k);
    if has_key(s, k) {
        lemma_key_index(s, k);
        let i = key_index(s, k);
        assert forall|a: int, b: int| 0 <= a < b < t.len() implies #[trigger] t[a].key()
            != #[trigger] t[b].key() by {
            let a0 = if a < i { a } else { a + 1 };
            let b0 = if b < i { b } else { b + 1 };
            assert(t[a] == s[a0]);
            assert(t[b] == s[b0]);
        }
        if has_key(t, k) {
            let j = choose|j: int| 0 <= j < t.len() && #[trigger] t[j].key() == k;
            let j0 = if j < i { j } else { j + 1 };
            assert(t[j] == s[j0]);
        }
        assert forall|k2: UUID| k2 != k implies #[trigger] item_with_key(t, k2) == item_with_key(s, k2) by {
            if has_key(s, k2) {
                lemma_key_index(s, k2);
                let m = key_index(s, k2);
                let m2 = if m < i { m } else { m - 1 };
                assert(m != i);
                assert(t[m2] == s[m]);
                assert(has_key(t, k2));
                lemma_key_index(t, k2);
                let n = key_index(t, k2);
                let n0 = if n < i { n } else { n + 1 };
                assert(t[n] == s[n0]);
            } else if has_key(t, k2) {
                let n = choose|n: int| 0 <= n < t.len() && #[trigger] t[n].key() == k2;
                let n0 = if n < i { n } else { n + 1 };
                assert(t[n] == s[n0]);
            }
        }
    }
}

} // verus!
