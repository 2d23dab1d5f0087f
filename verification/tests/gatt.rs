use rustable::att::{AttValue, ValOrFn};
use rustable::chrc::{chrc_method, ChrcData, ChrcMethod, ChrcProp, NotifyState, ShouldNotify};
use rustable::flags::{CharFlags, DescFlags};
use rustable::gatt::{desc_method, Characteristic, DescMethod, DescProp, Descriptor, Service};
use rustable::path::ObjectPath;
use rustable::properties::{prop_call, BluezOptions, PropCall, PropError};
use rustable::serv::{ServData, ServProp};
use rustable::UUID;

type Vf = fn() -> AttValue;

fn five_bytes() -> AttValue {
    AttValue::from_slice(&[1, 2, 3, 4, 5])
}

#[test]
fn att_value_edits() {
    let mut v = AttValue::new(3);
    assert_eq!(v.as_slice(), &[0, 0, 0]);
    v.resize(5, 7);
    assert_eq!(v.as_slice(), &[0, 0, 0, 7, 7]);
    v.resize(2, 9);
    assert_eq!(v.as_slice(), &[0, 0]);
    v.update(&[4, 5, 6], 1);
    assert_eq!(v.as_slice(), &[0, 4, 5, 6]);
    v.update(&[8], 1);
    assert_eq!(v.as_slice(), &[0, 8]);
    v.extend_from_slice(&[1, 2]);
    assert_eq!(v.as_slice(), &[0, 8, 1, 2]);
    assert_eq!(v.len(), 4);
    let mut n = 0u8;
    v.resize_with(6, move || {
        n += 1;
        n
    });
    assert_eq!(v.as_slice(), &[0, 8, 1, 2, 1, 2]);
    let c = v.clone();
    assert_eq!(c.as_slice(), v.as_slice());
    assert_eq!(AttValue::default().len(), 0);
}

#[test]
fn val_or_fn_gives_values() {
    let mut v: ValOrFn<Vf> = ValOrFn::from_slice(&[9, 8]);
    assert_eq!(v.to_value().as_slice(), &[9, 8]);
    let mut f: ValOrFn<Vf> = ValOrFn::Function(five_bytes);
    assert_eq!(f.to_value().as_slice(), &[1, 2, 3, 4, 5]);
    let mut d: ValOrFn<Vf> = ValOrFn::default();
    assert_eq!(d.to_value().len(), 0);
}

#[test]
fn char_flags_names_round_trip() {
    let mut f = CharFlags::default();
    f.read = true;
    f.write = true;
    f.write_wo_response = true;
    f.notify = true;
    f.secure_write = true;
    f.secure_read = true;
    let names = f.to_strings();
    assert_eq!(
        names,
        vec!["read", "write", "write-without-response", "notify", "secure-write", "secure-read"]
    );
    let back = CharFlags::from_strings(&names);
    assert_eq!(back, f);
    let all = CharFlags::from_strings(&["broadcast", "authorize", "indicate"]);
    assert!(all.broadcast && all.authorize && all.indicate && !all.read);
    let mut d = DescFlags::default();
    d.read = true;
    d.encrypt_write = true;
    assert_eq!(d.to_strings(), vec!["read", "encrypt-write"]);
}

#[test]
fn service_keeps_one_char_per_uuid() {
    let mut s: Service<Vf> = Service::new(UUID(1), true);
    let mut f = CharFlags::default();
    f.read = true;
    s.add_char(Characteristic::new(UUID(10), CharFlags::default()));
    s.add_char(Characteristic::new(UUID(11), CharFlags::default()));
    s.add_char(Characteristic::new(UUID(10), f));
    assert_eq!(s.chrc_cnt(), 2);
    assert_eq!(s.characteristics()[0].uuid(), UUID(10));
    let removed = s.remove_char(UUID(10)).unwrap();
    assert_eq!(removed.uuid(), UUID(10));
    assert!(s.remove_char(UUID(10)).is_none());
    assert_eq!(s.chrc_cnt(), 1);
    s.add_includes(UUID(5));
    s.add_includes(UUID(5));
    s.add_includes(UUID(6));
    assert_eq!(s.includes(), &[UUID(5), UUID(6)]);
    s.remove_includes(UUID(5));
    assert_eq!(s.includes(), &[UUID(6)]);
    let drained = s.drain_chrcs();
    assert_eq!(drained.len(), 1);
    assert_eq!(s.chrc_cnt(), 0);
    s.set_handle(Some(7));
    assert_eq!(s.get_handle(), 7);
    s.set_handle(None);
    assert_eq!(s.get_handle(), 0);
}

#[test]
fn characteristic_keeps_one_desc_per_uuid() {
    let mut c: Characteristic<Vf> = Characteristic::new(UUID(3), CharFlags::default());
    c.add_desc(Descriptor::new(UUID(20), DescFlags::default()));
    c.add_desc(Descriptor::new(UUID(21), DescFlags::default()));
    c.add_desc(Descriptor::new(UUID(20), DescFlags::default()));
    assert_eq!(c.desc_cnt(), 2);
    assert!(c.remove_desc(UUID(21)).is_some());
    assert!(c.remove_desc(UUID(21)).is_none());
    assert_eq!(c.drain_descs().len(), 1);
    assert_eq!(c.desc_cnt(), 0);
}

fn chrc_with(flags: CharFlags) -> ChrcData<Vf> {
    let mut c: Characteristic<Vf> = Characteristic::new(UUID(0x2A19), flags);
    c.set_value(ValOrFn::from_slice(&[10, 20, 30]));
    c.set_handle(Some(4));
    ChrcData::new(c, 2)
}

#[test]
fn chrc_read_and_write() {
    let mut f = CharFlags::default();
    f.read = true;
    f.write = true;
    let mut c = chrc_with(f);
    assert_eq!(c.read_value(Some(None)), Ok(vec![10, 20, 30]));
    assert_eq!(c.read_value(Some(Some(1))), Ok(vec![20, 30]));
    assert_eq!(c.read_value(Some(Some(3))), Ok(vec![]));
    assert_eq!(c.read_value(Some(Some(9))), Ok(vec![]));
    assert_eq!(c.read_value(None), Err("UnknownType"));
    let w = c.write_value(Some((AttValue::from_slice(&[7, 7]), Some(1)))).unwrap().unwrap();
    assert_eq!(w.as_slice(), &[10, 7, 7]);
    let w = c.write_value(Some((AttValue::from_slice(&[1]), None))).unwrap().unwrap();
    assert_eq!(w.as_slice(), &[1]);
    assert_eq!(c.write_value(None).unwrap().err(), Some("UnknownType"));
    c.apply_write(Some(ValOrFn::from_slice(&[5])));
    assert_eq!(c.read_value(Some(None)), Ok(vec![5]));
    let mut closed = chrc_with(CharFlags::default());
    assert_eq!(closed.read_value(Some(None)), Err("PermissionDenied"));
    assert_eq!(closed.write_value(None).unwrap().err(), Some("PermissionDenied"));
}

#[test]
fn chrc_notify_sessions() {
    let mut f = CharFlags::default();
    f.notify = true;
    f.write_wo_response = true;
    let mut c = chrc_with(f);
    assert_eq!(c.stop_notify(), Err("NotNotifying"));
    assert_eq!(c.start_notify(), Ok(()));
    assert_eq!(c.notify, NotifyState::Signal);
    assert_eq!(c.start_notify(), Err("org.Bluez.Error.InProgress"));
    assert_eq!(c.acquire_notify(false, Some(None)), Err("AlreadyAcquired"));
    assert_eq!(c.stop_notify(), Ok(()));
    assert_eq!(c.acquire_notify(false, Some(Some(100))), Ok(100));
    c.notify_acquired(100);
    assert_eq!(c.start_notify(), Err("FdAcquired"));
    assert_eq!(c.acquire_notify(false, Some(None)), Err("AlreadyAcquired"));
    assert_eq!(c.acquire_notify(true, Some(Some(1000))), Ok(517));
    assert_eq!(c.notify, NotifyState::Off);
    assert_eq!(c.acquire_write(Some(Some(23))), Ok(23));
    c.write_acquired(23);
    assert_eq!(c.write_buffer_len(), Some(23));
    assert_eq!(c.acquire_write(None), Err("AlreadyAcquired"));
    c.write_closed();
    assert_eq!(c.acquire_write(None), Err("UnknownType"));
    let mut plain = chrc_with(CharFlags::default());
    assert_eq!(plain.start_notify(), Err("PermissionDenied"));
    assert_eq!(plain.acquire_notify(false, Some(None)), Err("PermissionDenied"));
    assert_eq!(plain.acquire_write(Some(None)), Err("PermissionDenied"));
}

#[test]
fn chrc_calls_and_properties() {
    assert_eq!(
        chrc_method("org.bluez.GattCharacteristic1", "ReadValue"),
        ChrcMethod::ReadValue
    );
    assert_eq!(
        chrc_method("org.bluez.GattCharacteristic1", "Confirm"),
        ChrcMethod::UnknownMethod
    );
    assert_eq!(
        chrc_method("org.freedesktop.DBus.Properties", "Get"),
        ChrcMethod::Properties
    );
    assert_eq!(chrc_method("org.example", "X"), ChrcMethod::UnknownInterface);
    let mut f = CharFlags::default();
    f.read = true;
    let mut c = chrc_with(f);
    let path = ObjectPath::new("/app/service0000/char0001").unwrap();
    match c.get_inner(&path, "org.bluez.GattCharacteristic1", "UUID") {
        Ok(BluezOptions::Str(s)) => assert_eq!(s, "00000000-0000-0000-0000-000000002a19"),
        _ => panic!("UUID"),
    }
    match c.get_inner(&path, "org.bluez.GattCharacteristic1", "Service") {
        Ok(BluezOptions::Path(p)) => assert_eq!(p.as_object_path().as_str(), "/app/service0000"),
        _ => panic!("Service"),
    }
    match c.get_inner(&path, "org.bluez.GattCharacteristic1", "Flags") {
        Ok(BluezOptions::Flags(v)) => assert_eq!(v, vec!["read"]),
        _ => panic!("Flags"),
    }
    match c.get_inner(&path, "org.bluez.GattCharacteristic1", "Value") {
        Ok(BluezOptions::Buf(v)) => assert_eq!(v, vec![10, 20, 30]),
        _ => panic!("Value"),
    }
    assert!(matches!(
        c.get_inner(&path, "org.bluez.GattCharacteristic1", "Nope"),
        Err(PropError::PropertyNotFound)
    ));
    assert!(matches!(
        c.get_inner(&path, "org.bluez.GattService1", "UUID"),
        Err(PropError::InterfaceNotFound)
    ));
    assert_eq!(
        c.set_inner("org.bluez.GattCharacteristic1", "Handle", BluezOptions::U16(9)),
        Ok(())
    );
    assert_eq!(c.handle, 9);
    assert_eq!(
        c.set_inner("org.bluez.GattCharacteristic1", "Handle", BluezOptions::Bool(true)),
        Err(PropError::InvalidValue)
    );
    assert_eq!(
        c.set_inner("org.bluez.GattCharacteristic1", "UUID", BluezOptions::U16(1)),
        Err(PropError::PermissionDenied)
    );
    assert_eq!(
        c.set_inner("org.bluez.GattCharacteristic1", "WriteAcquired", BluezOptions::U16(1)),
        Err(PropError::PropertyNotFound)
    );
    let all = c.get_all_inner(&path, "org.bluez.GattCharacteristic1").ok().unwrap();
    let names: Vec<ChrcProp> = all.iter().map(|p| p.0).collect();
    assert_eq!(names.len(), 8);
    assert_eq!(names[0], ChrcProp::Uuid);
    assert_eq!(PropError::PermissionDenied.to_str(), "PermissionDenied");
}

#[test]
fn descriptor_calls() {
    assert_eq!(desc_method("org.bluez.GattDescriptor1", "WriteValue"), DescMethod::WriteValue);
    let mut f = DescFlags::default();
    f.read = true;
    f.write = true;
    let mut d: Descriptor<Vf> = Descriptor::new(UUID(0x2902), f);
    d.set_value(ValOrFn::from_slice(&[1, 2, 3]));
    assert_eq!(d.read_value(Some(Some(1))), Ok(vec![2, 3]));
    assert_eq!(d.write_value(Some((AttValue::from_slice(&[9]), Some(2)))), Some(Ok(())));
    assert_eq!(d.read_value(Some(None)), Ok(vec![1, 2, 9]));
    assert_eq!(d.write_value(None), Some(Err("UnknownType")));
    let path = ObjectPath::new("/app/service0000/char0000/desc0000").unwrap();
    match d.get_inner(&path, "org.bluez.GattDescriptor1", "Characteristic") {
        Ok(BluezOptions::Path(p)) => {
            assert_eq!(p.as_object_path().as_str(), "/app/service0000/char0000")
        }
        _ => panic!("Characteristic"),
    }
    let all = d.get_all_inner(&path, "org.bluez.GattDescriptor1").ok().unwrap();
    assert_eq!(all.len(), 5);
    assert_eq!(all[4].0, DescProp::Flags);
    assert_eq!(
        d.set_inner("org.bluez.GattCharacteristic1", "Handle", BluezOptions::U16(3)),
        Ok(())
    );
    assert_eq!(d.get_handle(), 3);
    assert_eq!(
        d.set_inner("org.bluez.GattDescriptor1", "Handle", BluezOptions::U16(3)),
        Err(PropError::InterfaceNotFound)
    );
}

#[test]
fn service_properties() {
    let s: Service<Vf> = Service::new(UUID(0x180F), true);
    let mut data = ServData::new(&s, 3);
    match data.get_inner("org.bluez.GattService1", "Primary") {
        Ok(BluezOptions::Bool(b)) => assert!(b),
        _ => panic!("Primary"),
    }
    assert_eq!(
        data.set_inner("org.bluez.GattService1", "Primary", BluezOptions::Bool(false)),
        Err(PropError::PermissionDenied)
    );
    assert_eq!(
        data.set_inner("org.bluez.GattService1", "Handle", BluezOptions::U16(12)),
        Ok(())
    );
    assert_eq!(data.handle, 12);
    let all = data.get_all_inner("org.bluez.GattService1").ok().unwrap();
    assert_eq!(all.len(), 4);
    assert_eq!(all[3].0, ServProp::Includes);
}

#[test]
fn chrc_notification_value() {
    let mut c = chrc_with(CharFlags::default());
    assert_eq!(c.notify_value(None).as_slice(), &[10, 20, 30]);
    assert_eq!(c.notify_value(Some(AttValue::from_slice(&[9]))).as_slice(), &[9]);
    assert_eq!(c.notify, NotifyState::Off);
}

#[test]
fn properties_interface_members() {
    assert_eq!(prop_call("Get"), PropCall::Get);
    assert_eq!(prop_call("Set"), PropCall::SetValue);
    assert_eq!(prop_call("GetAll"), PropCall::GetAll);
    assert_eq!(prop_call("get"), PropCall::Unknown);
    assert_eq!(prop_call(""), PropCall::Unknown);
}

#[test]
fn notify_answers() {
    assert!(ShouldNotify::No.notification().is_none());
    assert!(matches!(ShouldNotify::Yes.notification(), Some(None)));
    match ShouldNotify::WithSpecialValue(AttValue::from_slice(&[9, 8])).notification() {
        Some(Some(v)) => assert_eq!(v.as_slice(), &[9u8, 8][..]),
        _ => panic!("a special value"),
    }
}
