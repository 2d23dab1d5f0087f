use rustable::advertising::{ad_prop, ad_prop_name, AdProp};
use rustable::att::{AttValue, ValOrFn};
use rustable::chrc::{chrc_prop, chrc_prop_name, ChrcData, ChrcProp};
use rustable::error::Error;
use rustable::flags::{known_char_flag_names, CharFlags, DescFlags};
use rustable::gatt::{desc_prop, desc_prop_name, Characteristic, DescProp, Descriptor};
use rustable::mac::mac_text_panics;
use rustable::serv::{serv_prop, serv_prop_name, ServProp};
use rustable::server::{app_method, AppMethod};
use rustable::uuid::uuid_text_panics;
use rustable::UUID;

type Vf = fn() -> AttValue;

#[test]
fn property_names_name_their_property() {
    for p in [
        ChrcProp::Uuid,
        ChrcProp::Handle,
        ChrcProp::Service,
        ChrcProp::Value,
        ChrcProp::NotifyAcquired,
        ChrcProp::Notifying,
        ChrcProp::Flags,
        ChrcProp::WriteAcquired,
    ] {
        assert_eq!(chrc_prop(chrc_prop_name(p)), Some(p));
    }
    for p in [ServProp::Uuid, ServProp::Primary, ServProp::Handle, ServProp::Includes] {
        assert_eq!(serv_prop(serv_prop_name(p)), Some(p));
    }
    for p in [
        DescProp::Uuid,
        DescProp::Handle,
        DescProp::Characteristic,
        DescProp::Value,
        DescProp::Flags,
    ] {
        assert_eq!(desc_prop(desc_prop_name(p)), Some(p));
    }
    for p in [
        AdProp::ServiceUUIDs,
        AdProp::Type,
        AdProp::ManufacturerData,
        AdProp::SolicitUUIDs,
        AdProp::ServiceData,
    ] {
        assert_eq!(ad_prop(ad_prop_name(p)), Some(p));
    }
    assert_eq!(chrc_prop_name(ChrcProp::NotifyAcquired), "NotifyAcquired");
    assert_eq!(serv_prop_name(ServProp::Includes), "Includes");
    assert_eq!(desc_prop_name(DescProp::Characteristic), "Characteristic");
    assert_eq!(ad_prop_name(AdProp::ManufacturerData), "ManufacturerData");
}

#[test]
fn flag_names_known() {
    assert!(known_char_flag_names(&["read", "write", "secure-read", "authorize"]));
    assert!(known_char_flag_names(&[]));
    assert!(!known_char_flag_names(&["read", "flying"]));
    assert!(!known_char_flag_names(&["Read"]));
}

#[test]
fn text_slicing_panics() {
    assert!(!uuid_text_panics("00000000-0000-1000-8000-00805f9b34fb"));
    assert!(!uuid_text_panics("short"));
    // 36 bytes, but the two-byte character straddles the end of the first group.
    assert!(uuid_text_panics("0000000é-0000-0000-0000-00000000000"));
    // A wrong delimiter is reported before any group is sliced.
    assert!(!uuid_text_panics("0000000é-000-1000-8000-00805f9b34fb"));
    assert!(!mac_text_panics("01:02:03:A0:B0:C0"));
    assert!(!mac_text_panics("01-02-03-A0-B0-C0"));
    assert!(mac_text_panics("0é:02:03:A0:B0:C"));
}

#[test]
fn application_root_interfaces() {
    assert_eq!(app_method("org.freedesktop.DBus.Introspectable"), AppMethod::Introspect);
    assert_eq!(app_method("org.freedesktop.DBus.ObjectManager"), AppMethod::ObjectManager);
    assert_eq!(app_method("org.freedesktop.DBus.Properties"), AppMethod::Unknown);
}

#[test]
fn writes_out_of_range() {
    let args = |n: usize, off: Option<u16>| Some((AttValue::from_slice(&vec![0u8; n]), off));
    let mut flags = CharFlags::default();
    let mut c: Characteristic<Vf> = Characteristic::new(UUID(1), flags);
    c.set_value(ValOrFn::from_slice(&[1, 2, 3]));
    let mut closed = ChrcData::new(c, 0);
    assert_eq!(closed.write_value(args(2, Some(4))).unwrap().err(), Some("PermissionDenied"));
    flags.write = true;
    let mut c: Characteristic<Vf> = Characteristic::new(UUID(1), flags);
    c.set_value(ValOrFn::from_slice(&[1, 2, 3]));
    let mut open = ChrcData::new(c, 0);
    assert!(open.write_value(args(2, Some(4))).is_none());
    assert!(open.write_value(args(510, Some(3))).is_none());
    assert_eq!(open.write_value(args(2, Some(3))).unwrap().unwrap().as_slice(), &[1, 2, 3, 0, 0]);
    assert_eq!(open.write_value(args(512, None)).unwrap().unwrap().len(), 512);

    let mut c: Characteristic<Vf> = Characteristic::new(UUID(1), flags);
    c.set_value(ValOrFn::Function(|| AttValue::from_slice(&[1])));
    let mut by_fn = ChrcData::new(c, 0);
    assert!(by_fn.write_value(args(2, Some(9))).is_none());
    assert_eq!(by_fn.write_value(args(2, Some(1))).unwrap().unwrap().as_slice(), &[1, 0, 0]);

    let mut dflags = DescFlags::default();
    dflags.write = true;
    dflags.read = true;
    let mut d: Descriptor<Vf> = Descriptor::new(UUID(2), dflags);
    d.set_value(ValOrFn::from_slice(&[1]));
    assert!(d.write_value(args(1, Some(2))).is_none());
    assert_eq!(d.read_value(Some(None)), Ok(vec![1]));
    assert_eq!(d.write_value(args(1, Some(1))), Some(Ok(())));
    assert_eq!(d.read_value(Some(None)), Ok(vec![1, 0]));
    assert_eq!(d.get_flags(), dflags);
}

#[test]
fn io_errors_convert() {
    let e: Error = std::io::Error::new(std::io::ErrorKind::Other, "gone").into();
    assert!(matches!(e, Error::Io(_)));
}
