//! The child objects named in an introspection document: the `node` elements directly inside
//! the first top-level `node` element, read with the XML reader of the `xml` crate.
use vstd::prelude::*;

use crate::hex::push_char;
use crate::path::{
    lemma_push_strip_prefix, push_spec, starts_with_spec, strip_prefix_spec, valid_path, ObjectPath,
    ObjectPathBuf,
};
use crate::strbuf::{push_str, str_eq};

verus! {

/// A pull reader of the `xml` crate over the text of one document. Verus sees nothing inside
/// it: what it has still to give is the name `pending_events`.
#[verifier::external_body]
pub struct XmlReader<'a> {
    inner: xml::reader::EventReader<&'a [u8]>,
}

/// An event of the XML reader, with what the walk reads of it: element names are local
/// names, and attributes are pairs of local name and value.
pub enum XmlEv {
    StartDocument,
    EndDocument,
    StartElement(String, Vec<(String, String)>),
    EndElement(String),
    /// Text, comments, processing instructions and the like.
    Other,
    /// The document is not well-formed XML.
    Error,
}

/// What an event holds, as mathematical values.
pub enum XmlEvView {
    StartDocument,
    EndDocument,
    Start(Seq<char>, Seq<(Seq<char>, Seq<char>)>),
    End(Seq<char>),
    Other,
    Error,
}

/// The attributes of an element as mathematical values.
pub open spec fn attrs_view(a: Seq<(String, String)>) -> Seq<(Seq<char>, Seq<char>)> {
    a.map_values(|p: (String, String)| (p.0@, p.1@))
}

impl View for XmlEv {
    type V = XmlEvView;

    open spec fn view(&self) -> XmlEvView {
        match self {
            XmlEv::StartDocument => XmlEvView::StartDocument,
            XmlEv::EndDocument => XmlEvView::EndDocument,
            XmlEv::StartElement(n, a) => XmlEvView::Start(n@, attrs_view(a@)),
            XmlEv::EndElement(n) => XmlEvView::End(n@),
            XmlEv::Other => XmlEvView::Other,
            XmlEv::Error => XmlEvView::Error,
        }
    }
}

/// The events of a list as mathematical values.
pub open spec fn events_view(v: Seq<XmlEv>) -> Seq<XmlEvView> {
    v.map_values(|e: XmlEv| e@)
}

/// After this event the reader gives the same event again.
pub open spec fn terminal(e: XmlEvView) -> bool {
    e is EndDocument || e is Error
}

/// A stream of events that ends with its only end of document or error.
pub open spec fn ends_once(s: Seq<XmlEvView>) -> bool {
    s.len() > 0 && terminal(s.last()) && forall|i: int| 0 <= i < s.len() - 1 ==> !terminal(#[trigger] s[i])
}

/// The events that the reader gives for the document `doc`, up to its end or first error.
pub uninterp spec fn xml_events(doc: Seq<char>) -> Seq<XmlEvView>;

/// The events that the reader `r` has still to give, up to the end or first error.
pub uninterp spec fn pending_events(r: XmlReader) -> Seq<XmlEvView>;

/// `EventReader::from_str`: a reader of `doc`. It is to give the events of `doc`; it gives an
/// end of document (or an error) last, and that once.
#[verifier::external_body]
fn reader_of(doc: &str) -> (r: XmlReader)
    ensures
        pending_events(r) == xml_events(doc@),
        ends_once(pending_events(r)),
{
    XmlReader { inner: xml::reader::EventReader::from_str(doc) }
}

/// `EventReader::next`: the next event. After an end of document or an error the reader
/// gives that event again (as the crate documents).
#[verifier::external_body]
fn reader_next(r: &mut XmlReader) -> (e: XmlEv)
    requires
        pending_events(*old(r)).len() > 0,
    ensures
        e@ == pending_events(*old(r))[0],
        pending_events(*final(r)) == if terminal(e@) {
            pending_events(*old(r))
        } else {
            pending_events(*old(r)).drop_first()
        },
{
    match r.inner.next() {
        Ok(xml::reader::XmlEvent::StartDocument { .. }) => XmlEv::StartDocument,
        Ok(xml::reader::XmlEvent::EndDocument) => XmlEv::EndDocument,
        Ok(xml::reader::XmlEvent::StartElement { name, attributes, .. }) => XmlEv::StartElement(
            name.local_name,
            attributes.into_iter().map(|a| (a.name.local_name, a.value)).collect(),
        ),
        Ok(xml::reader::XmlEvent::EndElement { name }) => XmlEv::EndElement(name.local_name),
        Ok(_) => XmlEv::Other,
        Err(_) => XmlEv::Error,
    }
}

/// The events of the document `doc`, up to its end or first error.
pub fn document_events(doc: &str) -> (r: Vec<XmlEv>)
    ensures
        events_view(r@) == xml_events(doc@),
        ends_once(events_view(r@)),
{
    let mut reader = reader_of(doc);
    let ghost all = xml_events(doc@);
    let mut out: Vec<XmlEv> = Vec::new();
    loop
        invariant
            all == xml_events(doc@),
            ends_once(all),
            ends_once(pending_events(reader)),
            events_view(out@) + pending_events(reader) == all,
        decreases pending_events(reader).len(),
    {
        let ghost before = pending_events(reader);
        let e = reader_next(&mut reader);
        let t = match e {
            XmlEv::EndDocument => true,
            XmlEv::Error => true,
            _ => false,
        };
        let ghost out0 = out@;
        out.push(e);
        proof {
            assert(events_view(out@) =~= events_view(out0).push(before[0]));
        }
        if t {
            proof {
                assert(before.len() == 1) by {
                    if before.len() > 1 {
                        assert(!terminal(before[0]));
                    }
                }
                assert(events_view(out@) =~= all);
            }
            return out;
        }
        proof {
            assert(before.len() > 1);
            assert(before.drop_first().last() == before.last());
            assert forall|i: int| 0 <= i < before.drop_first().len() - 1 implies !terminal(
                #[trigger] before.drop_first()[i],
            ) by {
                assert(before.drop_first()[i] == before[i + 1]);
            }
            assert(events_view(out@) + pending_events(reader) =~= all);
        }
    }
}

/// Why no list of children comes out of an introspection document.
#[derive(Debug, PartialEq, Eq, Structural, Clone, Copy)]
pub enum WalkError {
    /// The document is not what Bluez answers: it is not well-formed, it has no `node`
    /// element, or a child's name does not make a valid object path.
    Invalid,
    /// The reader did not begin with the start of a document.
    NoStartDocument,
    /// The reader gave an event that a well-formed document cannot give at that point (an
    /// end tag that closes another element, or a second start or an early end of document).
    Malformed,
}

/// The local name of the elements that stand for objects.
pub open spec fn node_tag() -> Seq<char> {
    seq!['n', 'o', 'd', 'e']
}

/// The local name of the attribute that names an object.
pub open spec fn name_key() -> Seq<char> {
    seq!['n', 'a', 'm', 'e']
}

/// The value of the first attribute called `name`, if there is one.
pub open spec fn name_attr(a: Seq<(Seq<char>, Seq<char>)>) -> Option<Seq<char>>
    decreases a.len(),
{
    if a.len() == 0 {
        None
    } else if a[0].0 == name_key() {
        Some(a[0].1)
    } else {
        name_attr(a.drop_first())
    }
}

/// Where a rooted name `c` goes on from position `a`, once the separators and `.` elements
/// there are dropped (as `Path::strip_prefix("/")` drops them).
pub open spec fn skip_front(c: Seq<char>, a: int) -> int
    decreases c.len() - a,
{
    if a < 0 || a >= c.len() {
        a
    } else if c[a] == '/' {
        skip_front(c, a + 1)
    } else if c[a] == '.' && a + 1 == c.len() {
        c.len() as int
    } else if c[a] == '.' && c[a + 1] == '/' {
        skip_front(c, a + 2)
    } else {
        a
    }
}

/// Where the part `c[a..b]` of a name ends once the separators and `.` elements at its end
/// are dropped.
pub open spec fn skip_back(c: Seq<char>, a: int, b: int) -> int
    decreases b - a,
{
    if a < b && b <= c.len() && c[b - 1] == '/' {
        skip_back(c, a, b - 1)
    } else if a < b && b <= c.len() && c[b - 1] == '.' && b - 1 == a {
        a
    } else if a + 1 < b && b <= c.len() && c[b - 1] == '.' && c[b - 2] == '/' {
        skip_back(c, a, b - 2)
    } else {
        b
    }
}

/// The part of a child's name that is appended to the object's path. A name that is not
/// rooted is taken whole; of a rooted one, the root goes, and so do the separators and `.`
/// elements at its start and its end (`//a/.` gives `a`), as `Path::strip_prefix("/")`
/// leaves the name that `push_path_checked` of `async_rustbus` appends.
pub open spec fn relative_name(c: Seq<char>) -> Seq<char> {
    if c.len() > 0 && c[0] == '/' {
        let a = skip_front(c, 1);
        c.subrange(a, skip_back(c, a, c.len() as int))
    } else {
        c
    }
}

/// The path of the child named `c` of the object at `base`: `base` itself when nothing of
/// the name is left to append (see `relative_name`), else `base` with what is left appended
/// when that makes a valid path; any other name gives none.
pub open spec fn child_path_spec(base: Seq<char>, c: Seq<char>) -> Option<Seq<char>> {
    let rel = relative_name(c);
    if rel.len() == 0 {
        Some(base)
    } else if valid_path(seq!['/'] + rel) {
        Some(push_spec(base, seq!['/'] + rel))
    } else {
        None
    }
}

/// The path of a child of the object at the valid path `base` is a valid path that starts
/// with `base`; when the child's name has an element, `strip_prefix` gives that name back
/// (as a rooted path).
pub proof fn lemma_child_path_under_base(base: Seq<char>, c: Seq<char>)
    requires
        valid_path(base),
        child_path_spec(base, c) is Some,
    ensures
        valid_path(child_path_spec(base, c)->0),
        starts_with_spec(child_path_spec(base, c)->0, base),
        relative_name(c).len() > 0 ==> strip_prefix_spec(child_path_spec(base, c)->0, base)
            == Some(seq!['/'] + relative_name(c)),
{
    let rel = relative_name(c);
    if rel.len() > 0 {
        lemma_push_strip_prefix(base, seq!['/'] + rel);
    }
}

/// Every path in `ps` is a valid path that starts with `base`.
pub open spec fn all_under(base: Seq<char>, ps: Seq<Seq<char>>) -> bool {
    forall|k: int| 0 <= k < ps.len() ==> valid_path(#[trigger] ps[k]) && starts_with_spec(ps[k], base)
}

proof fn lemma_children_under(s: Seq<XmlEvView>, i: int, base: Seq<char>, acc: Seq<Seq<char>>)
    requires
        valid_path(base),
        all_under(base, acc),
    ensures
        children_spec(s, i, base, acc) matches Ok(r) ==> all_under(base, r),
    decreases s.len() - i,
{
    if i < s.len() {
        match s[i] {
            XmlEvView::Start(n, attrs) => {
                if n == node_tag() && name_attr(attrs) is None {
                    lemma_children_under(s, i + 1, base, acc);
                } else if n == node_tag() && child_path_spec(base, name_attr(attrs)->0) is None {
                } else {
                    lemma_skip_advances(s, i + 1, seq![n]);
                    if let Ok(j) = skip_spec(s, i + 1, seq![n]) {
                        if n == node_tag() {
                            let c = name_attr(attrs)->0;
                            lemma_child_path_under_base(base, c);
                            let acc2 = acc.push(child_path_spec(base, c)->0);
                            assert(all_under(base, acc2)) by {
                                assert forall|k: int| 0 <= k < acc2.len() implies valid_path(
                                    #[trigger] acc2[k],
                                ) && starts_with_spec(acc2[k], base) by {
                                    if k < acc.len() {
                                        assert(acc2[k] == acc[k]);
                                    }
                                }
                            }
                            lemma_children_under(s, j, base, acc2);
                        } else {
                            lemma_children_under(s, j, base, acc);
                        }
                    }
                }
            },
            XmlEvView::End(_) => {},
            XmlEvView::EndDocument => {},
            XmlEvView::Error => {},
            _ => {
                lemma_children_under(s, i + 1, base, acc);
            },
        }
    }
}

/// Every child that an introspection document lists for the object at the valid path `base`
/// has a valid path that starts with `base`.
pub proof fn lemma_walk_under_base(s: Seq<XmlEvView>, base: Seq<char>)
    requires
        valid_path(base),
    ensures
        walk_spec(s, base) matches Ok(r) ==> all_under(base, r),
{
    if s.len() > 0 && s[0] is StartDocument {
        if let Ok(j) = root_spec(s, 1) {
            lemma_children_under(s, j, base, Seq::empty());
        }
    }
}

/// Reading on from position `i` until the elements named in `open` (innermost last) are all
/// closed: the position after the last end tag.
pub open spec fn skip_spec(s: Seq<XmlEvView>, i: int, open: Seq<Seq<char>>) -> Result<int, WalkError>
    decreases s.len() - i,
{
    if open.len() == 0 {
        Ok(i)
    } else if i >= s.len() {
        Err(WalkError::Invalid)
    } else {
        match s[i] {
            XmlEvView::Start(n, _) => skip_spec(s, i + 1, open.push(n)),
            XmlEvView::End(n) => if n == open.last() {
                skip_spec(s, i + 1, open.drop_last())
            } else {
                Err(WalkError::Malformed)
            },
            XmlEvView::StartDocument => Err(WalkError::Malformed),
            XmlEvView::EndDocument => Err(WalkError::Malformed),
            XmlEvView::Error => Err(WalkError::Invalid),
            XmlEvView::Other => skip_spec(s, i + 1, open),
        }
    }
}

/// Skipping never goes back, and it moves on when something is open.
pub proof fn lemma_skip_advances(s: Seq<XmlEvView>, i: int, open: Seq<Seq<char>>)
    ensures
        skip_spec(s, i, open) matches Ok(j) ==> i <= j && (open.len() > 0 ==> i < j) && (i
            <= s.len() ==> j <= s.len()),
    decreases s.len() - i,
{
    if open.len() > 0 && i < s.len() {
        match s[i] {
            XmlEvView::Start(n, _) => lemma_skip_advances(s, i + 1, open.push(n)),
            XmlEvView::End(n) => lemma_skip_advances(s, i + 1, open.drop_last()),
            XmlEvView::Other => lemma_skip_advances(s, i + 1, open),
            _ => {},
        }
    }
}

/// Reading on from position `i` to the first top-level `node` element, skipping other
/// elements whole: the position after its start tag.
pub open spec fn root_spec(s: Seq<XmlEvView>, i: int) -> Result<int, WalkError>
    decreases s.len() - i,
{
    if i >= s.len() {
        Err(WalkError::Invalid)
    } else {
        match s[i] {
            XmlEvView::Start(n, _) => if n == node_tag() {
                Ok(i + 1)
            } else {
                match skip_spec(s, i + 1, seq![n]) {
                    Ok(j) => {
                        proof {
                            lemma_skip_advances(s, i + 1, seq![n]);
                        }
                        root_spec(s, j)
                    },
                    Err(e) => Err(e),
                }
            },
            XmlEvView::EndDocument => Err(WalkError::Invalid),
            XmlEvView::Error => Err(WalkError::Invalid),
            _ => root_spec(s, i + 1),
        }
    }
}

/// Reading the children of the root from position `i` on, after the children `acc` found
/// before it, up to the end tag of the root.
pub open spec fn children_spec(
    s: Seq<XmlEvView>,
    i: int,
    base: Seq<char>,
    acc: Seq<Seq<char>>,
) -> Result<Seq<Seq<char>>, WalkError>
    decreases s.len() - i,
{
    if i >= s.len() {
        Err(WalkError::Invalid)
    } else {
        match s[i] {
            XmlEvView::Start(n, attrs) => {
                if n == node_tag() && name_attr(attrs) is None {
                    children_spec(s, i + 1, base, acc)
                } else if n == node_tag() && child_path_spec(base, name_attr(attrs)->0) is None {
                    Err(WalkError::Invalid)
                } else {
                    match skip_spec(s, i + 1, seq![n]) {
                        Ok(j) => {
                            proof {
                                lemma_skip_advances(s, i + 1, seq![n]);
                            }
                            if n == node_tag() {
                                children_spec(
                                    s,
                                    j,
                                    base,
                                    acc.push(child_path_spec(base, name_attr(attrs)->0)->0),
                                )
                            } else {
                                children_spec(s, j, base, acc)
                            }
                        },
                        Err(e) => Err(e),
                    }
                }
            },
            XmlEvView::End(_) => Ok(acc),
            XmlEvView::EndDocument => Err(WalkError::Invalid),
            XmlEvView::Error => Err(WalkError::Invalid),
            _ => children_spec(s, i + 1, base, acc),
        }
    }
}

/// The paths of the children that the introspection document with events `s` names, for
/// the object at `base`: the `node` elements with a `name` directly inside the first
/// top-level `node` element, in document order.
pub open spec fn walk_spec(s: Seq<XmlEvView>, base: Seq<char>) -> Result<Seq<Seq<char>>, WalkError> {
    if s.len() == 0 || !(s[0] is StartDocument) {
        Err(WalkError::NoStartDocument)
    } else {
        match root_spec(s, 1) {
            Ok(j) => children_spec(s, j, base, Seq::empty()),
            Err(e) => Err(e),
        }
    }
}

/// Paths as mathematical values.
pub open spec fn paths_view(v: Seq<ObjectPathBuf>) -> Seq<Seq<char>> {
    v.map_values(|p: ObjectPathBuf| p@)
}

pub open spec fn walk_view(r: Result<Vec<ObjectPathBuf>, WalkError>) -> Result<Seq<Seq<char>>, WalkError> {
    match r {
        Ok(v) => Ok(paths_view(v@)),
        Err(e) => Err(e),
    }
}

fn is_node(n: &String) -> (r: bool)
    ensures
        r == (n@ == node_tag()),
{
    proof {
        reveal_strlit("node");
        assert("node"@ =~= node_tag());
    }
    str_eq(n.as_str(), "node")
}

/// The value of the first attribute called `name`.
pub fn find_name(attrs: &Vec<(String, String)>) -> (r: Option<&String>)
    ensures
        match r {
            Some(v) => name_attr(attrs_view(attrs@)) == Some(v@),
            None => name_attr(attrs_view(attrs@)) is None,
        },
{
    let ghost a = attrs_view(attrs@);
    proof {
        reveal_strlit("name");
        assert("name"@ =~= name_key());
    }
    let mut k: usize = 0;
    assert(a.skip(0) =~= a);
    while k < attrs.len()
        invariant
            a == attrs_view(attrs@),
            "name"@ == name_key(),
            k <= attrs.len(),
            name_attr(a.skip(k as int)) == name_attr(a),
        decreases attrs.len() - k,
    {
        let ghost rest = a.skip(k as int);
        assert(rest.drop_first() =~= a.skip(k + 1));
        if str_eq(attrs[k].0.as_str(), "name") {
            return Some(&attrs[k].1);
        }
        k = k + 1;
    }
    assert(a.skip(k as int).len() == 0);
    None
}

/// The path of the child named `name` of the object at `base`, if the name makes one.
pub fn join_child_name(base: &ObjectPath, name: &str) -> (r: Option<ObjectPathBuf>)
    ensures
        match r {
            Some(p) => child_path_spec(base@, name@) == Some(p@),
            None => child_path_spec(base@, name@) is None,
        },
{
    let n = name.unicode_len();
    let ghost c = name@;
    let rel = if n > 0 && name.get_char(0) == '/' {
        let mut a: usize = 1;
        loop
            invariant
                n == c.len(),
                c == name@,
                1 <= a <= n,
                skip_front(c, a as int) == skip_front(c, 1),
            ensures
                1 <= a <= n,
                a == skip_front(c, 1),
            decreases n - a,
        {
            if a >= n {
                break;
            }
            let ch = name.get_char(a);
            if ch == '/' {
                a = a + 1;
            } else if ch == '.' && a + 1 == n {
                a = n;
            } else if ch == '.' && name.get_char(a + 1) == '/' {
                a = a + 2;
            } else {
                break;
            }
        }
        let mut b: usize = n;
        loop
            invariant
                n == c.len(),
                c == name@,
                1 <= a <= b <= n,
                skip_back(c, a as int, b as int) == skip_back(c, a as int, n as int),
            ensures
                a <= b <= n,
                b == skip_back(c, a as int, n as int),
            decreases b - a,
        {
            if b <= a {
                break;
            }
            let ch = name.get_char(b - 1);
            if ch == '/' {
                b = b - 1;
            } else if ch == '.' && b - 1 == a {
                b = a;
            } else if ch == '.' && b >= a + 2 && name.get_char(b - 2) == '/' {
                b = b - 2;
            } else {
                break;
            }
        }
        name.substring_char(a, b)
    } else {
        name
    };
    assert(rel@ == relative_name(name@));
    if rel.unicode_len() == 0 {
        return Some(base.to_owned());
    }
    let mut rooted_rel = String::new();
    push_char(&mut rooted_rel, '/');
    push_str(&mut rooted_rel, rel);
    assert(rooted_rel@ =~= seq!['/'] + rel@);
    match ObjectPath::new(rooted_rel.as_str()) {
        Ok(p) => {
            let mut b = base.to_owned();
            b.push(&p);
            Some(b)
        },
        Err(_) => None,
    }
}

/// Skips the rest of the element opened at `start - 1`, named `first`: the position after
/// its end tag.
fn skip_tree(events: &Vec<XmlEv>, start: usize, first: &String) -> (r: Result<usize, WalkError>)
    requires
        start <= events.len(),
    ensures
        match r {
            Ok(j) => skip_spec(events_view(events@), start as int, seq![first@]) == Ok::<int, WalkError>(j as int)
                && j <= events.len(),
            Err(e) => skip_spec(events_view(events@), start as int, seq![first@]) == Err::<int, WalkError>(e),
        },
{
    let ghost s = events_view(events@);
    let mut open: Vec<String> = Vec::new();
    open.push(first.clone());
    let mut i = start;
    assert(open@.map_values(|x: String| x@) =~= seq![first@]);
    loop
        invariant
            s == events_view(events@),
            i <= events.len(),
            skip_spec(s, i as int, open@.map_values(|x: String| x@)) == skip_spec(s, start as int, seq![first@]),
        decreases events.len() - i,
    {
        let ghost names = open@.map_values(|x: String| x@);
        if open.len() == 0 {
            return Ok(i);
        }
        if i >= events.len() {
            return Err(WalkError::Invalid);
        }
        match &events[i] {
            XmlEv::StartElement(n, _) => {
                open.push(n.clone());
                assert(open@.map_values(|x: String| x@) =~= names.push(n@));
            },
            XmlEv::EndElement(n) => {
                let last = open.len() - 1;
                if !str_eq(n.as_str(), open[last].as_str()) {
                    return Err(WalkError::Malformed);
                }
                open.pop();
                assert(open@.map_values(|x: String| x@) =~= names.drop_last());
            },
            XmlEv::StartDocument => {
                return Err(WalkError::Malformed);
            },
            XmlEv::EndDocument => {
                return Err(WalkError::Malformed);
            },
            XmlEv::Error => {
                return Err(WalkError::Invalid);
            },
            XmlEv::Other => {},
        }
        i = i + 1;
    }
}

/// The position after the start tag of the first top-level `node` element, reading from
/// `start` on.
fn find_root(events: &Vec<XmlEv>, start: usize) -> (r: Result<usize, WalkError>)
    requires
        start <= events.len(),
    ensures
        match r {
            Ok(j) => root_spec(events_view(events@), start as int) == Ok::<int, WalkError>(j as int)
                && j <= events.len(),
            Err(e) => root_spec(events_view(events@), start as int) == Err::<int, WalkError>(e),
        },
{
    let ghost s = events_view(events@);
    let mut i = start;
    loop
        invariant
            s == events_view(events@),
            i <= events.len(),
            root_spec(s, i as int) == root_spec(s, start as int),
        decreases events.len() - i,
    {
        if i >= events.len() {
            return Err(WalkError::Invalid);
        }
        match &events[i] {
            XmlEv::StartElement(n, _) => {
                if is_node(n) {
                    return Ok(i + 1);
                }
                match skip_tree(events, i + 1, n) {
                    Ok(j) => {
                        proof {
                            lemma_skip_advances(s, i + 1, seq![n@]);
                        }
                        i = j;
                    },
                    Err(e) => {
                        return Err(e);
                    },
                }
            },
            XmlEv::EndDocument => {
                return Err(WalkError::Invalid);
            },
            XmlEv::Error => {
                return Err(WalkError::Invalid);
            },
            _ => {
                i = i + 1;
            },
        }
    }
}

/// The children listed from position `start` on, up to the end tag of the root.
fn collect_children(events: &Vec<XmlEv>, start: usize, base: &ObjectPath) -> (r: Result<
    Vec<ObjectPathBuf>,
    WalkError,
>)
    requires
        start <= events.len(),
    ensures
        walk_view(r) == children_spec(events_view(events@), start as int, base@, Seq::empty()),
{
    let ghost s = events_view(events@);
    let mut out: Vec<ObjectPathBuf> = Vec::new();
    let mut i = start;
    assert(paths_view(out@) =~= Seq::empty());
    loop
        invariant
            s == events_view(events@),
            i <= events.len(),
            children_spec(s, i as int, base@, paths_view(out@)) == children_spec(
                s,
                start as int,
                base@,
                Seq::empty(),
            ),
        decreases events.len() - i,
    {
        let ghost acc = paths_view(out@);
        if i >= events.len() {
            return Err(WalkError::Invalid);
        }
        match &events[i] {
            XmlEv::StartElement(n, attrs) => {
                let node = is_node(n);
                let mut child: Option<ObjectPathBuf> = None;
                if node {
                    match find_name(attrs) {
                        None => {
                            i = i + 1;
                            continue;
                        },
                        Some(c) => {
                            match join_child_name(base, c.as_str()) {
                                None => {
                                    return Err(WalkError::Invalid);
                                },
                                Some(p) => {
                                    child = Some(p);
                                },
                            }
                        },
                    }
                }
                match skip_tree(events, i + 1, n) {
                    Ok(j) => {
                        proof {
                            lemma_skip_advances(s, i + 1, seq![n@]);
                        }
                        match child {
                            Some(p) => {
                                out.push(p);
                                assert(paths_view(out@) =~= acc.push(
                                    child_path_spec(base@, name_attr(attrs_view(attrs@))->0)->0,
                                ));
                            },
                            None => {},
                        }
                        i = j;
                    },
                    Err(e) => {
                        return Err(e);
                    },
                }
            },
            XmlEv::EndElement(_) => {
                return Ok(out);
            },
            XmlEv::EndDocument => {
                return Err(WalkError::Invalid);
            },
            XmlEv::Error => {
                return Err(WalkError::Invalid);
            },
            _ => {
                i = i + 1;
            },
        }
    }
}

/// The paths of the children that the introspection document with events `events` names for
/// the object at `base`.
pub fn children_from_events(events: &Vec<XmlEv>, base: &ObjectPath) -> (r: Result<
    Vec<ObjectPathBuf>,
    WalkError,
>)
    ensures
        walk_view(r) == walk_spec(events_view(events@), base@),
{
    if events.len() == 0 {
        return Err(WalkError::NoStartDocument);
    }
    match &events[0] {
        XmlEv::StartDocument => {},
        _ => {
            return Err(WalkError::NoStartDocument);
        },
    }
    match find_root(events, 1) {
        Ok(j) => collect_children(events, j, base),
        Err(e) => Err(e),
    }
}

/// The paths of the children that the introspection document `doc` names for the object at
/// `base`, read with the XML reader.
pub fn introspect_children(doc: &str, base: &ObjectPath) -> (r: Result<Vec<ObjectPathBuf>, WalkError>)
    ensures
        walk_view(r) == walk_spec(xml_events(doc@), base@),
{
    let events = document_events(doc);
    children_from_events(&events, base)
}

} // verus!
