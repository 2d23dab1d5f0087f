use rustable::children::{children_from_events, introspect_children, join_child_name, WalkError, XmlEv};
use rustable::path::{ObjectPath, ObjectPathBuf};

fn texts(v: &[ObjectPathBuf]) -> Vec<String> {
    v.iter().map(|p| p.as_object_path().as_str().to_string()).collect()
}

const BLUEZ_ROOT: &str = "<!DOCTYPE node PUBLIC \"-//freedesktop//DTD D-BUS Object Introspection 1.0//EN\" \"http://www.freedesktop.org/standards/dbus/1.0/introspect.dtd\">
<node>
  <interface name=\"org.freedesktop.DBus.Introspectable\">
    <method name=\"Introspect\"><arg name=\"xml\" type=\"s\" direction=\"out\"/></method>
  </interface>
  <node name=\"hci0\"/>
  <node name=\"hci1\"><node name=\"dev_00_11\"/></node>
</node>";

#[test]
fn children_of_adapter_list() {
    let base = ObjectPath::new("/org/bluez").unwrap();
    let kids = introspect_children(BLUEZ_ROOT, &base).unwrap();
    assert_eq!(texts(&kids), vec!["/org/bluez/hci0", "/org/bluez/hci1"]);
}

#[test]
fn children_of_root_object() {
    let base = ObjectPath::new("/").unwrap();
    let kids = introspect_children("<node><node name=\"org\"/></node>", &base).unwrap();
    assert_eq!(texts(&kids), vec!["/org"]);
}

#[test]
fn children_none() {
    let base = ObjectPath::new("/a").unwrap();
    let kids = introspect_children("<node></node>", &base).unwrap();
    assert!(kids.is_empty());
}

#[test]
fn children_rooted_and_nested_names() {
    let base = ObjectPath::new("/a").unwrap();
    let doc = "<node><node name=\"/b\"/><node name=\"c/d\"/><node name=\"\"/></node>";
    let kids = introspect_children(doc, &base).unwrap();
    assert_eq!(texts(&kids), vec!["/a/b", "/a/c/d", "/a"]);
}

#[test]
fn children_bad_name() {
    let base = ObjectPath::new("/a").unwrap();
    let doc = "<node><node name=\"b-c\"/></node>";
    assert_eq!(introspect_children(doc, &base).unwrap_err(), WalkError::Invalid);
}

#[test]
fn children_skip_other_elements_before_root() {
    let base = ObjectPath::new("/x").unwrap();
    let doc = "<top><node name=\"hidden\"/></top>";
    // The only top-level element is not a `node`: the document ends before a root is found.
    assert_eq!(introspect_children(doc, &base).unwrap_err(), WalkError::Invalid);
}

#[test]
fn children_not_xml() {
    let base = ObjectPath::new("/x").unwrap();
    assert_eq!(introspect_children("<node><node name=\"a\">", &base).unwrap_err(), WalkError::Invalid);
}

#[test]
fn children_nameless_node_is_entered() {
    // A `node` without a name is not skipped: the named one inside it is listed, and the end
    // tag of the nameless one ends the list.
    let base = ObjectPath::new("/r").unwrap();
    let doc = "<node><node><node name=\"x\"/></node><node name=\"y\"/></node>";
    let kids = introspect_children(doc, &base).unwrap();
    assert_eq!(texts(&kids), vec!["/r/x"]);
}

#[test]
fn children_first_name_attribute_counts() {
    let base = ObjectPath::new("/r").unwrap();
    let doc = "<node><node id=\"1\" name=\"p\" name2=\"q\"/></node>";
    let kids = introspect_children(doc, &base).unwrap();
    assert_eq!(texts(&kids), vec!["/r/p"]);
}

#[test]
fn events_without_start_document() {
    let base = ObjectPath::new("/r").unwrap();
    let ev = vec![XmlEv::StartElement("node".to_string(), vec![]), XmlEv::EndElement("node".to_string())];
    assert_eq!(children_from_events(&ev, &base).unwrap_err(), WalkError::NoStartDocument);
    assert_eq!(children_from_events(&vec![], &base).unwrap_err(), WalkError::NoStartDocument);
}

#[test]
fn events_with_crossed_end_tag() {
    let base = ObjectPath::new("/r").unwrap();
    let ev = vec![
        XmlEv::StartDocument,
        XmlEv::StartElement("node".to_string(), vec![]),
        XmlEv::StartElement("node".to_string(), vec![("name".to_string(), "k".to_string())]),
        XmlEv::EndElement("other".to_string()),
        XmlEv::EndDocument,
    ];
    assert_eq!(children_from_events(&ev, &base).unwrap_err(), WalkError::Malformed);
}

#[test]
fn events_children_listed() {
    let base = ObjectPath::new("/r").unwrap();
    let ev = vec![
        XmlEv::StartDocument,
        XmlEv::Other,
        XmlEv::StartElement("node".to_string(), vec![]),
        XmlEv::StartElement("node".to_string(), vec![("name".to_string(), "k".to_string())]),
        XmlEv::EndElement("node".to_string()),
        XmlEv::EndElement("node".to_string()),
        XmlEv::EndDocument,
    ];
    assert_eq!(texts(&children_from_events(&ev, &base).unwrap()), vec!["/r/k"]);
}

#[test]
fn join_names() {
    let base = ObjectPath::new("/org/bluez").unwrap();
    let j = |n: &str| join_child_name(&base, n).map(|p| p.as_object_path().as_str().to_string());
    assert_eq!(j("hci0").as_deref(), Some("/org/bluez/hci0"));
    assert_eq!(j("/hci0").as_deref(), Some("/org/bluez/hci0"));
    assert_eq!(j("").as_deref(), Some("/org/bluez"));
    assert_eq!(j("/").as_deref(), Some("/org/bluez"));
    assert_eq!(j("a//b"), None);
    assert_eq!(j("a/"), None);
    assert_eq!(j("é"), None);
    assert_eq!(j("//hci0").as_deref(), Some("/org/bluez/hci0"));
    assert_eq!(j("/./hci0/.").as_deref(), Some("/org/bluez/hci0"));
    assert_eq!(j("/hci0//").as_deref(), Some("/org/bluez/hci0"));
    assert_eq!(j("/.").as_deref(), Some("/org/bluez"));
    assert_eq!(j("/a/b").as_deref(), Some("/org/bluez/a/b"));
    assert_eq!(j("/a//b"), None);
    assert_eq!(j("/a/./b"), None);
    assert_eq!(j("/.."), None);
    assert_eq!(j("./a"), None);
}

#[test]
fn children_lie_under_their_parent() {
    let base = ObjectPath::new("/org/bluez").unwrap();
    let kids = introspect_children(BLUEZ_ROOT, &base).unwrap();
    assert_eq!(kids.len(), 2);
    for k in kids {
        let p = ObjectPath::new(k.as_object_path().as_str()).unwrap();
        assert!(p.starts_with(&base));
        assert_eq!(p.parent().unwrap().as_str(), "/org/bluez");
    }
}
