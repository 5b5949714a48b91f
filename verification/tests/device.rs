use inputplug::device::descriptor_from_device_info;
use inputplug::device::descriptor_from_hierarchy;
use inputplug::device::resolve_name;
use inputplug::device::DeviceInfoRecord;
use inputplug::device::DeviceTypeClass;
use inputplug::device::HierarchyChangeFlag;
use inputplug::device::HierarchyEntry;
use inputplug::text::decode_lossy;
use inputplug::text::u16_to_dec;

#[test]
fn known_type_codes_have_labels() {
    assert_eq!(DeviceTypeClass::from_code(1).label(), "XIMasterPointer");
    assert_eq!(DeviceTypeClass::from_code(2).label(), "XIMasterKeyboard");
    assert_eq!(DeviceTypeClass::from_code(3).label(), "XISlavePointer");
    assert_eq!(DeviceTypeClass::from_code(4).label(), "XISlaveKeyboard");
    assert_eq!(DeviceTypeClass::from_code(5).label(), "XIFloatingSlave");
}

#[test]
fn unknown_type_code_resolves_to_empty_label() {
    for code in [0u16, 6, 7, 100, u16::MAX] {
        let c = DeviceTypeClass::from_code(code);
        assert!(c == DeviceTypeClass::Unknown);
        assert_eq!(c.label(), "");
    }
}

#[test]
fn change_bits_map_to_flag_labels() {
    assert_eq!(HierarchyChangeFlag::from_bit(0x01).unwrap().label(), "XIMasterAdded");
    assert_eq!(HierarchyChangeFlag::from_bit(0x02).unwrap().label(), "XIMasterRemoved");
    assert_eq!(HierarchyChangeFlag::from_bit(0x04).unwrap().label(), "XISlaveAdded");
    assert_eq!(HierarchyChangeFlag::from_bit(0x08).unwrap().label(), "XISlaveRemoved");
    assert_eq!(HierarchyChangeFlag::from_bit(0x10).unwrap().label(), "XISlaveAttached");
    assert_eq!(HierarchyChangeFlag::from_bit(0x20).unwrap().label(), "XISlaveDetached");
    assert_eq!(HierarchyChangeFlag::from_bit(0x40).unwrap().label(), "XIDeviceEnabled");
    assert_eq!(HierarchyChangeFlag::from_bit(0x80).unwrap().label(), "XIDeviceDisabled");
    assert!(HierarchyChangeFlag::from_bit(0x100).is_none());
    assert!(HierarchyChangeFlag::from_bit(0x03).is_none());
    assert!(HierarchyChangeFlag::from_bit(0).is_none());
}

#[test]
fn device_info_name_is_decoded_permissively() {
    let rec = DeviceInfoRecord { deviceid: 7, device_type: 3, name: vec![0x41, 0xff, 0x42] };
    let d = descriptor_from_device_info(&rec);
    assert_eq!(d.id, 7);
    assert!(d.class == DeviceTypeClass::SlavePointer);
    assert_eq!(d.name, "A\u{FFFD}B");
}

#[test]
fn lossy_decoding_keeps_valid_text() {
    assert_eq!(decode_lossy(&Vec::new()), "");
    assert_eq!(decode_lossy(&b"plain name".to_vec()), "plain name");
    assert_eq!(decode_lossy(&vec![0xf0, 0x9f]), "\u{FFFD}");
}

#[test]
fn name_resolution_scans_for_matching_id() {
    let reply = vec![
        DeviceInfoRecord { deviceid: 2, device_type: 1, name: b"virtual pointer".to_vec() },
        DeviceInfoRecord { deviceid: 9, device_type: 4, name: b"usb keyboard".to_vec() },
        DeviceInfoRecord { deviceid: 9, device_type: 4, name: b"shadow entry".to_vec() },
    ];
    assert_eq!(resolve_name(&reply, 2), "virtual pointer");
    assert_eq!(resolve_name(&reply, 9), "usb keyboard");
    assert_eq!(resolve_name(&reply, 5), "");
    assert_eq!(resolve_name(&Vec::new(), 2), "");
}

#[test]
fn hierarchy_descriptor_tolerates_missing_reply() {
    let e = HierarchyEntry { deviceid: 11, device_type: 2, flags: 0 };
    let d = descriptor_from_hierarchy(&e, None);
    assert_eq!(d.id, 11);
    assert!(d.class == DeviceTypeClass::MasterKeyboard);
    assert_eq!(d.name, "");
    let reply = vec![DeviceInfoRecord { deviceid: 11, device_type: 2, name: b"kbd".to_vec() }];
    let d2 = descriptor_from_hierarchy(&e, Some(&reply));
    assert_eq!(d2.name, "kbd");
}

#[test]
fn decimal_rendering_of_device_ids() {
    assert_eq!(u16_to_dec(0), "0");
    assert_eq!(u16_to_dec(7), "7");
    assert_eq!(u16_to_dec(10), "10");
    assert_eq!(u16_to_dec(306), "306");
    assert_eq!(u16_to_dec(65535), "65535");
}
