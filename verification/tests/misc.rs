use rustable::advertising::{ad_method, AdMethod, AdProp, AdType, Advertisement};
use rustable::att::AttValue;
use rustable::error::{error_reply, name_request_result, reply_unreadable, str_starts_with, Error};
use rustable::introspect::{
    adv_intro, app_intro, child_nodes, chrc_intro, desc_intro, numbered, serv_intro,
    INTROSPECT_FMT_P1, INTROSPECT_FMT_P3, MANGAGER_STR, PROP_STR,
};
use rustable::path::{ObjectPath, ObjectPathBuf};
use rustable::properties::{BluezOptions, PropError};
use rustable::server::{
    adapter_path, child_path, connected_reply, dest_plan, device_path, hci_index, is_msg_bluez,
    value_from_reply, write_len, Application, DestPlan,
    reassembly_plan, PieceKind,
};
use rustable::gatt::Service;
use rustable::{MAC, UUID};

type Vf = fn() -> AttValue;

#[test]
fn ad_type_names() {
    assert_eq!(AdType::Peripheral.to_str(), "peripheral");
    assert_eq!(AdType::Broadcast.to_str(), "broadcast");
}

#[test]
fn advertisement_properties() {
    let mut ad = Advertisement::for_adapter(ObjectPathBuf::new());
    ad.services.push(UUID(7));
    ad.typ = AdType::Broadcast;
    match ad.get_inner("org.bluez.LEAdvertisement1", "Type") {
        Ok(BluezOptions::Str(s)) => assert_eq!(s, "broadcast"),
        _ => panic!("Type"),
    }
    match ad.get_inner("org.bluez.LEAdvertisement1", "ServiceUUIDs") {
        Ok(BluezOptions::UUIDs(v)) => assert_eq!(v, vec![UUID(7)]),
        _ => panic!("ServiceUUIDs"),
    }
    assert!(matches!(
        ad.get_inner("org.bluez.LEAdvertisement1", "LocalName"),
        Err(PropError::PropertyNotFound)
    ));
    assert_eq!(
        ad.set_inner("org.bluez.LEAdvertisement1", "Type"),
        Err(PropError::PermissionDenied)
    );
    assert_eq!(
        ad.set_inner("org.bluez.LEAdvertisement1", "Other"),
        Err(PropError::PropertyNotFound)
    );
    assert_eq!(ad.set_inner("org.x", "Type"), Err(PropError::InterfaceNotFound));
    let all = ad.get_all_inner("org.bluez.LEAdvertisement1").ok().unwrap();
    let order: Vec<AdProp> = all.iter().map(|p| p.0).collect();
    assert_eq!(
        order,
        vec![
            AdProp::ServiceUUIDs,
            AdProp::Type,
            AdProp::ManufacturerData,
            AdProp::SolicitUUIDs,
            AdProp::ServiceData
        ]
    );
    assert_eq!(ad_method("org.bluez.LEAdvertisement1", "Release"), AdMethod::Release);
    assert_eq!(ad_method("org.bluez.LEAdvertisement1", "Other"), AdMethod::UnknownMethod);
    assert_eq!(ad_method("org.x", "Release"), AdMethod::UnknownInterface);
}

#[test]
fn advertisement_data_starts_empty() {
    let ad = Advertisement::for_adapter(ObjectPathBuf::new());
    assert!(ad.manu_data.to_vec().is_empty());
    assert!(ad.serv_data.to_vec().is_empty());
    match ad.get_inner("org.bluez.LEAdvertisement1", "ManufacturerData") {
        Ok(BluezOptions::DataMap(v)) => assert!(v.is_empty()),
        _ => panic!("ManufacturerData"),
    }
    match ad.clone().get_inner("org.bluez.LEAdvertisement1", "ServiceData") {
        Ok(BluezOptions::UUIDMap(v)) => assert!(v.is_empty()),
        _ => panic!("ServiceData"),
    }
}

#[test]
fn introspection_documents() {
    let names = numbered("char", 2);
    assert_eq!(names, vec!["char0000".to_string(), "char0001".to_string()]);
    let mut s = String::new();
    child_nodes(&names, &mut s);
    assert_eq!(s, "\t<node name=\"char0000\"/>\n\t<node name=\"char0001\"/>\n");
    let app = app_intro(1);
    let expected = format!(
        "{}{}\t<node name=\"service0000\"/>\n{}",
        INTROSPECT_FMT_P1, MANGAGER_STR, INTROSPECT_FMT_P3
    );
    assert_eq!(app, expected);
    assert!(serv_intro(0).contains("org.bluez.GattService1"));
    assert!(chrc_intro(17).contains("<node name=\"desc0010\"/>"));
    assert!(desc_intro().starts_with(INTROSPECT_FMT_P1));
    assert!(adv_intro().contains(PROP_STR));
    assert!(adv_intro().ends_with(" </node>"));
}

#[test]
fn error_replies() {
    match error_reply("org.bluez.Error.Failed".to_string()) {
        Error::Bluez(m) => assert_eq!(m, "org.bluez.Error.Failed"),
        _ => panic!("bluez"),
    }
    match error_reply("org.freedesktop.DBus.Error.UnknownMethod".to_string()) {
        Error::Dbus(m) => assert_eq!(m, "org.freedesktop.DBus.Error.UnknownMethod"),
        _ => panic!("dbus"),
    }
    match reply_unreadable("InvalidType") {
        Error::Dbus(m) => assert_eq!(m, "Failed to unmarshal: InvalidType"),
        _ => panic!("unmarshal"),
    }
    assert!(name_request_result(1).is_ok());
    match name_request_result(3) {
        Err(Error::Dbus(m)) => assert_eq!(m, "Name taken!"),
        _ => panic!("taken"),
    }
    assert!(str_starts_with("service0001", "service"));
    assert!(!str_starts_with("serv", "service"));
}

#[test]
fn filters_names_and_paths() {
    assert!(is_msg_bluez(Some(":1.5"), None));
    assert!(is_msg_bluez(Some("org.bluez"), Some(":1.2")));
    assert!(is_msg_bluez(Some(":1.2"), Some(":1.2")));
    assert!(!is_msg_bluez(Some(":1.3"), Some(":1.2")));
    assert!(!is_msg_bluez(None, Some(":1.2")));
    let none: Option<String> = None;
    assert_eq!(dest_plan(&none, &none), DestPlan { release: false, request: false });
    assert_eq!(
        dest_plan(&Some("a.b".to_string()), &Some("a.b".to_string())),
        DestPlan { release: false, request: false }
    );
    assert_eq!(
        dest_plan(&Some("a.b".to_string()), &Some("a.c".to_string())),
        DestPlan { release: true, request: true }
    );
    assert_eq!(dest_plan(&none, &Some("a.c".to_string())), DestPlan { release: false, request: true });
    assert_eq!(adapter_path(0), "/org/bluez/hci0");
    assert_eq!(adapter_path(12), "/org/bluez/hci12");
    assert_eq!(hci_index("hci0"), Some(0));
    assert_eq!(hci_index("hci255"), Some(255));
    assert_eq!(hci_index("hci256"), None);
    assert_eq!(hci_index("dev_01"), None);
    let adapter = ObjectPath::new("/org/bluez/hci0").unwrap();
    assert_eq!(
        device_path(&adapter, &MAC::new(0x010203A0B0C0)),
        "/org/bluez/hci0/dev_01_02_03_A0_B0_C0"
    );
    let base = ObjectPath::new("/io/test").unwrap();
    assert_eq!(child_path(&base, "service", 10), "/io/test/service000a");
    assert_eq!(write_len(20, 8), 8);
    assert_eq!(write_len(5, 8), 5);
}

#[test]
fn replies_from_bluez() {
    assert_eq!(value_from_reply(&[1, 2]).ok().unwrap().as_slice(), &[1, 2]);
    match value_from_reply(&[0u8; 513]) {
        Err(Error::Bluez(m)) => assert_eq!(m, "AttValue received was too long!"),
        _ => panic!("too long"),
    }
    assert!(connected_reply(BluezOptions::Bool(true)).ok().unwrap());
    match connected_reply(BluezOptions::U16(1)) {
        Err(Error::Bluez(m)) => assert_eq!(m, "Bluez returned unexpected type!"),
        _ => panic!("type"),
    }
}

#[test]
fn application_services() {
    let hci = ObjectPath::new("/org/bluez/hci0").unwrap();
    let base = ObjectPath::new("/io/app").unwrap();
    let mut app: Application<Vf> = Application::new(&hci, &base);
    assert!(app.filter());
    app.set_filter(false);
    assert!(!app.filter());
    app.add_service(Service::new(UUID(1), true));
    app.add_service(Service::new(UUID(2), false));
    app.add_service(Service::new(UUID(1), false));
    assert_eq!(app.serv_cnt(), 2);
    assert!(app.remove_service(UUID(2)).is_some());
    assert!(app.remove_service(UUID(2)).is_none());
    let drained = app.drain_services();
    assert_eq!(drained.len(), 1);
    assert!(!drained[0].is_primary());
    assert_eq!(app.base_path().as_str(), "/io/app");
    app.set_dest_name(Some("io.test".to_string()));
    assert_eq!(app.dest().as_deref(), Some("io.test"));
}

#[test]
fn unregistered_pieces_reassemble() {
    let (s, c, d) = (PieceKind::Service, PieceKind::Characteristic, PieceKind::Descriptor);
    assert_eq!(reassembly_plan(&[]), Some(vec![]));
    assert_eq!(
        reassembly_plan(&[s, c, d, d, c, s, c]),
        Some(vec![false, false, false, true, true, true, true])
    );
    assert_eq!(reassembly_plan(&[c, d, c]), None);
    assert_eq!(reassembly_plan(&[d, d]), None);
    assert_eq!(reassembly_plan(&[c, s, d, c, d]), Some(vec![false, false, false, true, true]));
    assert_eq!(reassembly_plan(&[s, d, s, d]), None);
}
