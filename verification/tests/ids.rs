use rand::Rng;
use rustable::error::IDParseError;
use rustable::uuid::{bt_base_uuid, validate_uuid, UUID};
use rustable::MAC;

#[test]
fn mac_to_string() {
    let mut rng = rand::thread_rng();
    for _ in 0..128 {
        let mac = MAC::from_parts(rng.gen(), rng.gen());
        let mac_str = mac.to_string();
        assert_eq!(mac, MAC::from_str(&mac_str).expect(&mac_str));
    }
}

#[test]
fn mac_dev_string() {
    let mut rng = rand::thread_rng();
    for _ in 0..128 {
        let mac = MAC::from_parts(rng.gen(), rng.gen());
        let dev_str = mac.to_dev_str();
        assert_eq!(mac, MAC::from_dev_str(&dev_str).expect(&dev_str));
    }
}

#[test]
fn uuid_to_string() {
    let mut rng = rand::thread_rng();
    for _ in 0..128 {
        let uuid = UUID(rng.gen());
        let uuid_str = uuid.to_string();
        assert_eq!(uuid, UUID::from_str(&uuid_str).expect(&uuid_str));
    }
}

#[test]
fn test_val_uuid() {
    assert!(validate_uuid("00001104-0000-1000-8000-00805f9b34fb"));
    assert!(validate_uuid("8a33385f-4465-47aa-a25a-3631f01d4861"));
    assert!(validate_uuid(
        &"8a33385f-4465-47aa-a25a-3631f01d4861".to_uppercase()
    ));
    assert!(!validate_uuid("00001104-0000-1000-8000-00805f9b34f")); // too short
    assert!(!validate_uuid("00001104-0000-1000-8000-00805f9b34fb ")); // too long
    assert!(!validate_uuid("8a33385f.4465.47aa.a25a.3631f01d4861")); // wrong delimiter
    assert!(!validate_uuid("8h33385h-4465-47hh-a25h-3631fh1h4861")); // not hex
    assert!(!validate_uuid("-h33385h-4465-47hh-a25h-3631fh1h4861")); // first number is negative
}

#[test]
fn mac_display_forms() {
    let mac = MAC::new(0x010203A0B0C0);
    assert_eq!(mac.to_string(), "01:02:03:A0:B0:C0");
    assert_eq!(mac.to_dev_str(), "dev_01_02_03_A0_B0_C0");
    assert_eq!(MAC::from_parts(0x010203A0, 0xB0C0), mac);
    assert_eq!(MAC::from((0x010203A0u32, 0xB0C0u16)), mac);
}

#[test]
fn mac_parse_errors() {
    assert_eq!(MAC::from_str("01:02:03:A0:B0"), Err(IDParseError::InvalidLength));
    assert_eq!(MAC::from_str("01-02:03:A0:B0:C0"), Err(IDParseError::InvalidDelimiter));
    assert_eq!(MAC::from_str("01:02:03:A0:B0:CG"), Err(IDParseError::InvalidRadix));
    assert_eq!(MAC::from_str("01:02:03:a0:b0:c0"), Ok(MAC::new(0x010203A0B0C0)));
    assert_eq!(MAC::from_dev_str("dev_01_02_03_A0_B0"), None);
    assert_eq!(MAC::from_dev_str("hci0"), None);
}

#[test]
fn uuid_text_and_aliases() {
    let u = UUID::from_u16(0x180F);
    assert_eq!(u.to_string(), "0000180f-0000-1000-8000-00805f9b34fb");
    assert_eq!(u.short(), Some(0x180F));
    assert_eq!(u.uint(), Some(0x180F));
    let v = UUID::from_u32(0x12345678);
    assert_eq!(v.short(), None);
    assert_eq!(v.uint(), Some(0x12345678));
    assert_eq!(bt_base_uuid().0, 0x0000000000001000800000805F9B34FB);
    let w = UUID(0x8a33385f446547aaa25a3631f01d4861);
    assert_eq!(w.short(), None);
    assert_eq!(w.uint(), None);
    assert_eq!(u16::try_from(u).ok(), Some(0x180F));
    assert!(u16::try_from(w).is_err());
}

#[test]
fn only_alias_uuids_have_aliases() {
    assert_eq!(UUID(0).short(), None);
    assert_eq!(UUID(0).uint(), None);
    assert_eq!(UUID(0x180F << 96).short(), None);
    assert_eq!(bt_base_uuid().short(), Some(0));
    assert_eq!(bt_base_uuid().uint(), Some(0));
    assert_eq!(UUID::from_u16(0).short(), Some(0));
    assert_eq!(UUID(bt_base_uuid().0 ^ 1).uint(), None);
    assert!(u32::try_from(UUID(0)).is_err());
}

#[test]
fn uuid_parse_errors() {
    assert_eq!(UUID::from_str("0000180f"), Err(IDParseError::InvalidLength));
    assert_eq!(
        UUID::from_str("0000180f+0000-1000-8000-00805f9b34fb"),
        Err(IDParseError::InvalidDelimiter)
    );
    assert_eq!(
        UUID::from_str("0000180g-0000-1000-8000-00805f9b34fb"),
        Err(IDParseError::InvalidRadix)
    );
    assert_eq!(
        UUID::from_str("0000180F-0000-1000-8000-00805F9B34FB"),
        Ok(UUID::from_u16(0x180F))
    );
}
