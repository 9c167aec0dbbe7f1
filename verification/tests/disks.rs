use subniri::disks::{decode_block_properties, decode_drive_properties, decode_mount_points, DecodeError, PropValue};

fn s(v: &str) -> PropValue {
    PropValue::Str(v.to_owned())
}

#[test]
fn drives_take_defaults_for_missing_properties() {
    let props = vec![("Model".to_owned(), s("SSD 970")), ("Size".to_owned(), PropValue::U64(512))];
    let d = decode_drive_properties(&props).unwrap();
    assert_eq!(d.model, "SSD 970");
    assert_eq!(d.vendor, "");
    assert_eq!(d.size, 512);
    assert!(!d.ejectable);
    let wrong = vec![("Ejectable".to_owned(), s("yes"))];
    assert!(matches!(decode_drive_properties(&wrong), Err(DecodeError::IncorrectType)));
}

#[test]
fn block_devices_need_a_c_string_device() {
    let props = vec![
        ("IdLabel".to_owned(), s("data")),
        ("Device".to_owned(), PropValue::ByteArray(b"/dev/sda1\0".to_vec())),
    ];
    let b = decode_block_properties(&props).unwrap();
    assert_eq!(b.id_label, "data");
    assert_eq!(b.drive, "/");
    assert_eq!(b.device, b"/dev/sda1".to_vec());
    // Without a device the empty path is no C string, and decoding fails.
    let none = vec![("IdLabel".to_owned(), s("data"))];
    assert!(matches!(decode_block_properties(&none), Err(DecodeError::InvalidDevicePath(v)) if v.is_empty()));
    let inner = vec![("Device".to_owned(), PropValue::ByteArray(b"/dev\0/sda\0".to_vec()))];
    assert!(matches!(decode_block_properties(&inner), Err(DecodeError::InvalidDevicePath(_))));
}

#[test]
fn mount_points_are_c_strings() {
    let props = vec![(
        "MountPoints".to_owned(),
        PropValue::ByteArrays(vec![b"/mnt/a\0".to_vec(), b"/\0".to_vec()]),
    )];
    assert_eq!(decode_mount_points(&props).unwrap(), vec![b"/mnt/a".to_vec(), b"/".to_vec()]);
    assert!(decode_mount_points(&vec![]).unwrap().is_empty());
    let bad = vec![("MountPoints".to_owned(), PropValue::ByteArrays(vec![b"/ok\0".to_vec(), b"/bad".to_vec()]))];
    assert!(matches!(decode_mount_points(&bad), Err(DecodeError::InvalidMountPoint(v)) if v == b"/bad".to_vec()));
    let wrong = vec![("MountPoints".to_owned(), PropValue::Bool(true))];
    assert!(matches!(decode_mount_points(&wrong), Err(DecodeError::IncorrectType)));
}
