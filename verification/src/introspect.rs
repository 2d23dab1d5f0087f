//! Introspection documents of the objects that the library serves: the interfaces each one
//! offers, and the child nodes under it.
use vstd::prelude::*;

use crate::hex::{hex_fmt_min, push_hex_min};
use crate::strbuf::push_str;

verus! {

/// The start of an introspection document, with the introspection interface.
pub const INTROSPECT_FMT_P1: &'static str = "<!DOCTYPE node PUBLIC \"-//freedesktop//DTD D-BUS Object Introspection 1.0//EN\" \"http://www.freedesktop.org/standards/dbus/1.0/introspect.dtd\">
 <node>
\t<interface name=\"org.freedesktop.DBus.Introspectable\">
\t\t<method name=\"Introspect\">
\t\t\t<arg name=\"xml_data\" type=\"s\" direction=\"out\"/>
\t\t</method>
\t</interface>\n";

/// The end of an introspection document.
pub const INTROSPECT_FMT_P3: &'static str = " </node>";

/// The properties interface.
pub const PROP_STR: &'static str = "\t<interface name=\"org.freedesktop.DBus.Properties\">
\t\t<method name=\"Get\">
\t\t\t<arg name=\"interface_name\" type=\"s\" direction=\"in\"/>
\t\t\t<arg name=\"property_name\" type=\"s\" direction=\"in\"/>
\t\t\t<arg name=\"value\" type=\"v\" direction=\"out\"/>
\t\t</method>
\t\t<method name=\"GetAll\">
\t\t\t<arg name=\"interface_name\" type=\"s\" direction=\"in\"/>
\t\t\t<arg name=\"props\" type=\"a{sv}\" direction=\"out\"/>
\t\t</method>
\t\t<method name=\"Set\">
\t\t\t<arg name=\"interface_name\" type=\"s\" direction=\"in\"/>
\t\t\t<arg name=\"property_name\" type=\"s\" direction=\"in\"/>
\t\t\t<arg name=\"value\" type=\"v\" direction=\"in\"/>
\t\t</method>
\t</interface>\n";

/// The advertisement interface.
pub const ADV_STR: &'static str = "\t<interface name=\"org.bluez.LEAdvertisement1\">
\t\t<method name=\"Release\"/>
\t\t<property name=\"Type\" type=\"s\" access=\"readwrite\"/>
\t\t<property name=\"ServiceUUIDs\" type=\"as\" access=\"readwrite\"/>
\t\t<property name=\"SolicitUUIDs\" type=\"as\" access=\"readwrite\"/>
\t\t<property name=\"ServiceData\" type=\"a{sv}\" access=\"readwrite\"/>
\t\t<property name=\"ManufacturerData\" type=\"a{qa{y}}\" access=\"readwrite\"/>
\t\t<property name=\"Data\" type=\"a{sv}\" access=\"readwrite\"/>
\t\t<property name=\"Discoverable\" type=\"b\" access=\"readwrite\"/>
\t\t<property name=\"DiscoverableTimeout\" type=\"q\" access=\"readwrite\"/>
\t\t<property name=\"Includes\" type=\"ao\" access=\"readwrite\"/>
\t\t<property name=\"LocalName\" type=\"s\" access=\"readwrite\"/>
\t\t<property name=\"Appearance\" type=\"q\" access=\"readwrite\"/>
\t\t<property name=\"Duration\" type=\"q\" access=\"readwrite\"/>
\t\t<property name=\"Timeout\" type=\"q\" access=\"readwrite\"/>
\t\t<property name=\"SecondaryChannel\" type=\"s\" access=\"readwrite\"/>
\t</interface>\n";

/// The GATT service interface.
pub const SERVICE_STR: &'static str = "\t<interface name=\"org.bluez.GattService1\">
\t\t<property name=\"UUID\" type=\"s\" access=\"read\"/>
\t\t<property name=\"Primary\" type=\"b\" access=\"read\"/>
\t\t<property name=\"Device\" type=\"o\" access=\"read\"/>
\t\t<property name=\"Handle\" type=\"q\" access=\"read\"/>
\t\t<property name=\"Includes\" type=\"as\" access=\"read\"/>
\t</interface>\n";

/// The GATT characteristic interface.
pub const CHAR_STR: &'static str = "\t<interface name=\"org.bluez.GattCharacteristic1\">
\t\t<method name=\"ReadValue\">
\t\t\t<arg name=\"options\" type=\"a{sv}\" direction=\"in\"/>
\t\t\t<arg name=\"value\" type=\"ay\" direction=\"out\"/>
\t\t</method>
\t\t<method name=\"WriteValue\">
\t\t\t<arg name=\"value\" type=\"ay\" direction=\"in\"/>
\t\t\t<arg name=\"options\" type=\"a{sv}\" direction=\"in\"/>
\t\t</method>
\t\t<method name=\"AcquireWrite\">
\t\t\t<arg name=\"options\" type=\"a{sv}\" direction=\"in\"/>
\t\t\t<arg name=\"write_fd\" type=\"h\" direction=\"out\"/>
\t\t\t<arg name=\"mtu\" type=\"q\" direction=\"out\"/>
\t\t</method>
\t\t<method name=\"AcquireNotify\">
\t\t\t<arg name=\"options\" type=\"a{sv}\" direction=\"in\"/>
\t\t\t<arg name=\"write_fd\" type=\"h\" direction=\"out\"/>
\t\t\t<arg name=\"mtu\" type=\"q\" direction=\"out\"/>
\t\t</method>
\t\t<method name=\"StartNotify\"/>
\t\t<method name=\"StopNotify\"/>
\t\t<method name=\"Confirm\"/>
\t\t<property name=\"UUID\" type=\"s\" access=\"read\"/>
\t\t<property name=\"Service\" type=\"s\" access=\"read\"/>
\t\t<property name=\"Value\" type=\"ay\" access=\"read\"/>
\t\t<property name=\"WriteAcquired\" type=\"b\" access=\"read\"/>
\t\t<property name=\"NotifyAcquired\" type=\"b\" access=\"read\"/>
\t\t<property name=\"Notifying\" type=\"b\" access=\"read\"/>
\t\t<property name=\"Flags\" type=\"as\" access=\"read\"/>
\t\t<property name=\"Handle\" type=\"q\" access=\"readwrite\"/>
\t</interface>\n";

/// The GATT descriptor interface.
pub const DESC_STR: &'static str = "\t<interface name=\"org.bluez.GattDescriptor1\">
\t\t<method name=\"ReadValue\">
\t\t\t<arg name=\"options\" type=\"a{sv}\" direction=\"in\"/>
\t\t\t<arg name=\"value\" type=\"ay\" direction=\"out\"/>
\t\t</method>
\t\t<method name=\"WriteValue\">
\t\t\t<arg name=\"value\" type=\"ay\" direction=\"in\"/>
\t\t\t<arg name=\"options\" type=\"a{sv}\" direction=\"in\"/>
\t\t</method>
\t\t<property name=\"UUID\" type=\"s\" access=\"read\"/>
\t\t<property name=\"Characteristic\" type=\"s\" access=\"read\"/>
\t\t<property name=\"Value\" type=\"ay\" access=\"read\"/>
\t\t<property name=\"Flags\" type=\"as\" access=\"read\"/>
\t\t<property name=\"Handle\" type=\"q\" access=\"readwrite\"/>
\t</interface>\n";

/// The object manager interface.
pub const MANGAGER_STR: &'static str = "\t<interface name=\"org.freedesktop.DBus.ObjectManager\">
\t\t<method name=\"GetManagedObjects\">
\t\t\t<arg type=\"a{oa{sa{sv}}}\" name=\"object_paths_interfaces_and_properties\" direction=\"out\"/>
\t\t</method>
\t\t<signal name=\"InterfacesAdded\">
\t\t\t<arg type=\"o\" name=\"object_path\"/>
\t\t\t<arg type=\"a{sa{sv}}\" name=\"interfaces_and_properties\"/>
\t\t</signal>
\t\t<signal name=\"InterfacesRemoved\">
\t\t\t<arg type=\"o\" name=\"object_path\"/>
\t\t\t<arg type=\"as\" name=\"interfaces\"/>
\t\t</signal>
\t</interface>\n";

/// The line that names the child node `name`.
pub open spec fn node_line(name: Seq<char>) -> Seq<char> {
    "\t<node name=\""@ + name + "\"/>\n"@
}

/// The lines that name the child nodes `names`, in order.
pub open spec fn node_lines(names: Seq<Seq<char>>) -> Seq<char>
    decreases names.len(),
{
    if names.len() == 0 {
        Seq::empty()
    } else {
        node_lines(names.drop_last()) + node_line(names.last())
    }
}

/// The names `prefix0000`, `prefix0001`, ... of `n` numbered children.
pub open spec fn numbered_names(prefix: Seq<char>, n: nat) -> Seq<Seq<char>> {
    Seq::new(n, |i: int| prefix + hex_fmt_min(i as nat, 4))
}

/// An introspection document offering the interfaces `ifaces`, with the child nodes `names`.
pub open spec fn intro_doc(ifaces: Seq<char>, names: Seq<Seq<char>>) -> Seq<char> {
    INTROSPECT_FMT_P1@ + ifaces + node_lines(names) + INTROSPECT_FMT_P3@
}

/// The texts of a list of strings.
pub open spec fn strings_view(v: Seq<String>) -> Seq<Seq<char>> {
    v.map_values(|s: String| s@)
}

/// Appends a line naming each child node in `children`.
pub fn child_nodes(children: &[String], dst: &mut String)
    ensures
        final(dst)@ == old(dst)@ + node_lines(strings_view(children@)),
{
    let ghost start = dst@;
    let mut i: usize = 0;
    assert(node_lines(strings_view(children@.take(0))) =~= Seq::<char>::empty());
    assert(start + Seq::<char>::empty() =~= start);
    while i < children.len()
        invariant
            i <= children@.len(),
            start == old(dst)@,
            dst@ == start + node_lines(strings_view(children@.take(i as int))),
        decreases children@.len() - i,
    {
        let ghost before = dst@;
        let ghost names = strings_view(children@);
        proof {
            assert(strings_view(children@.take(i as int)) =~= names.take(i as int));
            assert(strings_view(children@.take(i + 1)) =~= names.take(i + 1));
            assert(names.take(i + 1).drop_last() =~= names.take(i as int));
        }
        push_str(dst, "\t<node name=\"");
        push_str(dst, children[i].as_str());
        push_str(dst, "\"/>\n");
        assert(dst@ =~= before + node_line(children@[i as int]@));
        i = i + 1;
    }
    assert(children@.take(children@.len() as int) =~= children@);
}

/// The names of `n` numbered children: `prefix` followed by the number in hexadecimal, at
/// least four digits.
pub fn numbered(prefix: &str, n: usize) -> (r: Vec<String>)
    ensures
        strings_view(r@) == numbered_names(prefix@, n as nat),
{
    let mut out: Vec<String> = Vec::new();
    let mut i: usize = 0;
    while i < n
        invariant
            i <= n,
            out@.len() == i,
            forall|j: int| 0 <= j < i ==> #[trigger] out@[j]@ == prefix@ + hex_fmt_min(j as nat, 4),
        decreases n - i,
    {
        let mut s = prefix.to_owned();
        push_hex_min(&mut s, i, 4);
        out.push(s);
        i = i + 1;
    }
    assert(strings_view(out@) =~= numbered_names(prefix@, n as nat));
    out
}

/// An introspection document offering the interfaces `ifaces`, with the child nodes `names`.
pub fn intro_doc_exec(ifaces: &str, names: &[String]) -> (r: String)
    ensures
        r@ == intro_doc(ifaces@, strings_view(names@)),
{
    let mut s = INTROSPECT_FMT_P1.to_owned();
    push_str(&mut s, ifaces);
    child_nodes(names, &mut s);
    push_str(&mut s, INTROSPECT_FMT_P3);
    s
}

/// `a` followed by `b`.
fn concat(a: &str, b: &str) -> (r: String)
    ensures
        r@ == a@ + b@,
{
    let mut s = a.to_owned();
    push_str(&mut s, b);
    s
}

/// The introspection document of an application with `serv_cnt` services.
pub fn app_intro(serv_cnt: usize) -> (r: String)
    ensures
        r@ == intro_doc(MANGAGER_STR@, numbered_names("service"@, serv_cnt as nat)),
{
    let names = numbered("service", serv_cnt);
    intro_doc_exec(MANGAGER_STR, names.as_slice())
}

/// The introspection document of a service with `children` characteristics.
pub fn serv_intro(children: usize) -> (r: String)
    ensures
        r@ == intro_doc(PROP_STR@ + SERVICE_STR@, numbered_names("char"@, children as nat)),
{
    let names = numbered("char", children);
    let ifaces = concat(PROP_STR, SERVICE_STR);
    intro_doc_exec(ifaces.as_str(), names.as_slice())
}

/// The introspection document of a characteristic with `children` descriptors.
pub fn chrc_intro(children: usize) -> (r: String)
    ensures
        r@ == intro_doc(PROP_STR@ + CHAR_STR@, numbered_names("desc"@, children as nat)),
{
    let names = numbered("desc", children);
    let ifaces = concat(PROP_STR, CHAR_STR);
    intro_doc_exec(ifaces.as_str(), names.as_slice())
}

/// The introspection document of a descriptor.
pub fn desc_intro() -> (r: String)
    ensures
        r@ == intro_doc(PROP_STR@ + DESC_STR@, Seq::empty()),
{
    let names: Vec<String> = Vec::new();
    let ifaces = concat(PROP_STR, DESC_STR);
    assert(strings_view(names@) =~= Seq::<Seq<char>>::empty());
    intro_doc_exec(ifaces.as_str(), names.as_slice())
}

/// The introspection document of an advertisement.
pub fn adv_intro() -> (r: String)
    ensures
        r@ == intro_doc(PROP_STR@ + ADV_STR@, Seq::empty()),
{
    let names: Vec<String> = Vec::new();
    let ifaces = concat(PROP_STR, ADV_STR);
    assert(strings_view(names@) =~= Seq::<Seq<char>>::empty());
    intro_doc_exec(ifaces.as_str(), names.as_slice())
}

} // verus!
