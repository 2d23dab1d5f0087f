use rustable::path::{InvalidObjectPath, ObjectPath, ObjectPathBuf};
use std::borrow::Borrow;
use std::collections::hash_map::DefaultHasher;
use std::hash::{Hash, Hasher};
use std::path::Path;

fn test_objpaths() -> Vec<ObjectPath> {
    vec![
        ObjectPath::new("/org/freedesktop/NetworkManager").unwrap(),
        ObjectPath::new("/org/freedesktop/NetworkManager/ActiveConnection").unwrap(),
    ]
}

fn test_objpathbufs() -> Vec<ObjectPathBuf> {
    test_objpaths().iter().map(|op| op.to_owned()).collect()
}

// Borrow requires that the Ord trait prodces equivelent values before and after
fn compare_ord_borrow<A, T, U>(pre: &[A]) -> Option<(usize, usize)>
where
    T: Ord + Borrow<U> + ?Sized,
    U: Ord + ?Sized,
    A: Borrow<T>,
{
    let pre_iter = pre.iter().map(|p| p.borrow());
    for (i, pre_i) in pre_iter.clone().enumerate() {
        for (j, pre_j) in pre_iter.clone().enumerate().skip(i) {
            let pre_ord = pre_i.cmp(pre_j);
            let post_i = pre_i.borrow();
            let post_j = pre_j.borrow();
            let post_ord = post_i.cmp(post_j);
            if pre_ord != post_ord {
                return Some((i, j));
            }
        }
    }
    None
}

// Borrow requires that Hash trait produces equivelent values for before and after borrow()
// This tests that invariant
fn compare_hasher_borrow<A, T, U>(pre: &[A]) -> Option<usize>
where
    T: Hash + Borrow<U> + ?Sized,
    U: Hash + ?Sized,
    A: Borrow<T>,
{
    let pre_iter = pre.iter().map(|p| p.borrow());
    for (i, (pre, post)) in pre_iter
        .clone()
        .zip(pre_iter.map(|p| p.borrow()))
        .enumerate()
    {
        let mut pre_borrow_hasher = DefaultHasher::new();
        let mut post_borrow_hasher = DefaultHasher::new();
        pre.hash(&mut pre_borrow_hasher);
        post.hash(&mut post_borrow_hasher);
        if pre_borrow_hasher.finish() != post_borrow_hasher.finish() {
            return Some(i);
        }
    }
    None
}

#[test]
fn test_objectpathbuf_borrow_objectpath() {
    let objpathbufs = test_objpathbufs();
    if let Some(i) =
        compare_hasher_borrow::<ObjectPathBuf, ObjectPathBuf, ObjectPath>(&objpathbufs[..])
    {
        panic!("Hash didn't match: {}", i);
    }
    if let Some((i, j)) =
        compare_ord_borrow::<ObjectPathBuf, ObjectPathBuf, ObjectPath>(&objpathbufs[..])
    {
        panic!("Ord didn't match for: {} {}", i, j);
    }
}

// The object path is seen as a `std::path::Path` through its text.
#[test]
fn test_objectpath_borrow_path() {
    let objpaths = test_objpaths();
    for (i, op) in objpaths.iter().enumerate() {
        let mut pre_borrow_hasher = DefaultHasher::new();
        let mut post_borrow_hasher = DefaultHasher::new();
        op.hash(&mut pre_borrow_hasher);
        Path::new(op.as_str()).hash(&mut post_borrow_hasher);
        if pre_borrow_hasher.finish() != post_borrow_hasher.finish() {
            panic!("Hash didn't match: {}", i);
        }
    }
    for (i, pre_i) in objpaths.iter().enumerate() {
        for (j, pre_j) in objpaths.iter().enumerate().skip(i) {
            let pre_ord = pre_i.cmp(pre_j);
            let post_ord = Path::new(pre_i.as_str()).cmp(Path::new(pre_j.as_str()));
            if pre_ord != post_ord {
                panic!("Ord didn't match for: {} {}", i, j);
            }
        }
    }
}

#[test]
fn test_push() {
    let objpath = ObjectPath::new("/dbus/test").unwrap();
    let objpath2 = ObjectPath::new("/freedesktop/more").unwrap();
    let mut objpathbuf = ObjectPathBuf::new();
    objpathbuf.push(&objpath);
    assert_eq!(objpathbuf, objpath);
    objpathbuf.push(&objpath2);
    assert_eq!(
        objpathbuf,
        ObjectPath::new("/dbus/test/freedesktop/more").unwrap()
    );
    assert!(objpathbuf.as_object_path().starts_with(&objpath));
    assert!(!objpathbuf.as_object_path().starts_with(&objpath2));
    assert_eq!(
        objpathbuf.as_object_path().strip_prefix(&objpath).unwrap(),
        objpath2
    );
}

#[test]
fn validate_reports_each_error() {
    assert_eq!(ObjectPath::validate("/"), Ok(()));
    assert_eq!(ObjectPath::validate("/org/bluez/hci0"), Ok(()));
    assert_eq!(ObjectPath::validate(""), Err(InvalidObjectPath::NoRoot));
    assert_eq!(ObjectPath::validate("org/bluez"), Err(InvalidObjectPath::NoRoot));
    assert_eq!(
        ObjectPath::validate("/org//bluez"),
        Err(InvalidObjectPath::ContainsInvalidCharacters)
    );
    assert_eq!(
        ObjectPath::validate("/org/blu-ez"),
        Err(InvalidObjectPath::ContainsInvalidCharacters)
    );
    assert_eq!(
        ObjectPath::validate("/org/blüez"),
        Err(InvalidObjectPath::ContainsInvalidCharacters)
    );
    assert_eq!(
        ObjectPath::validate("/org/bluez/"),
        Err(InvalidObjectPath::TrailingSlash)
    );
    assert!(ObjectPath::new("/a-b").is_err());
}

#[test]
fn parent_and_file_name() {
    let p = ObjectPath::new("/org/bluez/hci0").unwrap();
    assert_eq!(p.file_name(), Some("hci0"));
    let parent = p.parent().unwrap();
    assert_eq!(parent.as_str(), "/org/bluez");
    let top = ObjectPath::new("/org").unwrap();
    assert_eq!(top.parent().unwrap().as_str(), "/");
    let root = ObjectPath::new("/").unwrap();
    assert!(root.parent().is_none());
    assert_eq!(root.file_name(), None);
    assert_eq!(p.as_bytes(), b"/org/bluez/hci0");
}

#[test]
fn pop_and_clear() {
    let mut b = ObjectPathBuf::new();
    b.push(&ObjectPath::new("/org/bluez").unwrap());
    assert_eq!(b.as_object_path().as_str(), "/org/bluez");
    assert!(b.pop());
    assert_eq!(b.as_object_path().as_str(), "/org");
    assert!(b.pop());
    assert_eq!(b.as_object_path().as_str(), "/");
    assert!(!b.pop());
    assert_eq!(b.as_object_path().as_str(), "/");
    b.push(&ObjectPath::new("/x").unwrap());
    b.reserve(16);
    b.reserve_exact(4);
    assert_eq!(b.as_object_path().as_str(), "/x");
    b.clear();
    assert_eq!(b.as_object_path().as_str(), "");
    let mut e = ObjectPathBuf::with_capacity(32);
    assert_eq!(e.as_object_path().as_str(), "");
    e.push(&ObjectPath::new("/dbus/test").unwrap());
    assert_eq!(e.as_object_path().as_str(), "dbus/test");
}

#[test]
fn strip_prefix_cases() {
    let a = ObjectPath::new("/a/b/c").unwrap();
    let root = ObjectPath::new("/").unwrap();
    assert_eq!(a.strip_prefix(&root).unwrap().as_str(), "/a/b/c");
    assert_eq!(a.strip_prefix(&a).unwrap().as_str(), "/");
    let ab = ObjectPath::new("/a/b").unwrap();
    assert_eq!(a.strip_prefix(&ab).unwrap().as_str(), "/c");
    let abx = ObjectPath::new("/a/bc").unwrap();
    assert!(abx.strip_prefix(&ab).is_err());
    assert!(!abx.starts_with(&ab));
    assert!(a.starts_with(&root));
}

#[test]
fn paths_compare_as_std_paths() {
    let mut b = ObjectPath::new("/dbus").unwrap().to_owned();
    b.push(&ObjectPath::new("/").unwrap());
    assert_eq!(b.as_object_path().as_str(), "/dbus/");
    let dbus = ObjectPath::new("/dbus").unwrap();
    assert!(b == dbus);
    assert!(*b.as_object_path() == dbus);
    assert!(b == ObjectPath::new("/dbus").unwrap().to_owned());
    assert!(b != ObjectPath::new("/dbus/x").unwrap().to_owned());
    assert!(ObjectPathBuf::with_capacity(4) != ObjectPathBuf::new());
    let mut r = ObjectPathBuf::new();
    r.push(&ObjectPath::new("/").unwrap());
    assert!(r == ObjectPathBuf::new());
}

#[test]
fn starts_with_any_paths() {
    let dbus = ObjectPath::new("/dbus").unwrap();
    let mut b = dbus.to_owned();
    b.push(&ObjectPath::new("/").unwrap());
    assert!(b.as_object_path().starts_with(&dbus));
    assert!(dbus.starts_with(b.as_object_path()));
    let empty = ObjectPathBuf::with_capacity(8);
    assert!(dbus.starts_with(empty.as_object_path()));
    assert!(empty.as_object_path().starts_with(empty.as_object_path()));
    assert!(!empty.as_object_path().starts_with(&ObjectPath::new("/").unwrap()));
    let mut rel = ObjectPathBuf::with_capacity(8);
    rel.push(&ObjectPath::new("/a/b").unwrap());
    assert!(!rel.as_object_path().starts_with(&ObjectPath::new("/a").unwrap()));
    let mut rel_a = ObjectPathBuf::with_capacity(8);
    rel_a.push(&ObjectPath::new("/a").unwrap());
    assert!(rel.as_object_path().starts_with(rel_a.as_object_path()));
    let ab = ObjectPath::new("/a/b").unwrap();
    assert!(!ab.starts_with(rel_a.as_object_path()));
    assert!(ab.strip_prefix(rel_a.as_object_path()).is_err());
    let mut a_slash = ObjectPath::new("/a").unwrap().to_owned();
    a_slash.push(&ObjectPath::new("/").unwrap());
    assert_eq!(ab.strip_prefix(a_slash.as_object_path()).unwrap().as_str(), "/b");
    assert_eq!(ab.strip_prefix(b.as_object_path()).is_err(), true);
}

#[test]
fn strip_prefix_of_any_paths() {
    let mut t = ObjectPath::new("/a/b").unwrap().to_owned();
    t.push(&ObjectPath::new("/").unwrap());
    let trailing = t.as_object_path();
    assert_eq!(trailing.as_str(), "/a/b/");
    let a = ObjectPath::new("/a").unwrap();
    let root = ObjectPath::new("/").unwrap();
    assert_eq!(trailing.strip_prefix(&a).unwrap().as_str(), "b/");
    assert_eq!(trailing.strip_prefix(&root).unwrap().as_str(), "a/b/");
    assert_eq!(trailing.strip_prefix(&ObjectPath::new("/a/b").unwrap()).unwrap().as_str(), "/");
    let mut rel = ObjectPathBuf::with_capacity(8);
    rel.push(&ObjectPath::new("/a/b").unwrap());
    let mut rel_a = ObjectPathBuf::with_capacity(8);
    rel_a.push(&a);
    assert_eq!(rel.as_object_path().strip_prefix(rel_a.as_object_path()).unwrap().as_str(), "/b");
    assert_eq!(rel_a.as_object_path().strip_prefix(rel_a.as_object_path()).unwrap().as_str(), "/");
    assert!(rel.as_object_path().strip_prefix(&a).is_err());
}
