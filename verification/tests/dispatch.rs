use inputplug::device::descriptor_from_hierarchy;
use inputplug::device::DeviceInfoRecord;
use inputplug::device::HierarchyChangeFlag;
use inputplug::device::HierarchyEntry;
use inputplug::dispatch::bootstrap_invocations;
use inputplug::dispatch::entry_invocations;
use inputplug::dispatch::format_invocation;
use inputplug::dispatch::notification_invocations;
use inputplug::dispatch::plan_invocation;
use inputplug::dispatch::should_dispatch;
use inputplug::dispatch::Notification;
use inputplug::dispatch::WatcherOptions;
use inputplug::dispatch::GENERIC_EVENT_CODE;

fn options(command: &str, verbose: bool, no_act: bool) -> WatcherOptions {
    WatcherOptions {
        command: command.to_owned(),
        verbose,
        no_act,
        foreground: true,
        bootstrap: false,
        debug: false,
        pidfile: None,
    }
}

#[test]
fn invocation_always_has_four_fields_in_fixed_order() {
    let e = HierarchyEntry { deviceid: 12, device_type: 0, flags: 0 };
    let d = descriptor_from_hierarchy(&e, None);
    let inv = format_invocation(HierarchyChangeFlag::SlaveAdded, &d);
    let args = inv.to_args();
    assert_eq!(args.len(), 4);
    assert_eq!(args[0], "XISlaveAdded");
    assert_eq!(args[1], "12");
    assert_eq!(args[2], "");
    assert_eq!(args[3], "");
}

#[test]
fn bootstrap_replay_one_master_one_slave() {
    let devs = vec![
        DeviceInfoRecord { deviceid: 2, device_type: 1, name: b"virtual pointer".to_vec() },
        DeviceInfoRecord { deviceid: 9, device_type: 4, name: b"usb keyboard".to_vec() },
    ];
    let invs = bootstrap_invocations(&devs);
    assert_eq!(invs.len(), 3);
    assert_eq!(
        invs[0].to_args(),
        vec!["XIMasterAdded", "2", "XIMasterPointer", "virtual pointer"]
    );
    assert_eq!(
        invs[1].to_args(),
        vec!["XISlaveAdded", "9", "XISlaveKeyboard", "usb keyboard"]
    );
    assert_eq!(
        invs[2].to_args(),
        vec!["XIDeviceEnabled", "9", "XISlaveKeyboard", "usb keyboard"]
    );
}

#[test]
fn bootstrap_replay_skips_unrecognized_classes() {
    let devs = vec![
        DeviceInfoRecord { deviceid: 1, device_type: 77, name: b"odd".to_vec() },
        DeviceInfoRecord { deviceid: 3, device_type: 5, name: b"pad".to_vec() },
    ];
    let invs = bootstrap_invocations(&devs);
    assert_eq!(invs.len(), 2);
    assert_eq!(invs[0].to_args()[0], "XISlaveAdded");
    assert_eq!(invs[0].to_args()[2], "XIFloatingSlave");
    assert_eq!(invs[1].to_args()[0], "XIDeviceEnabled");
    assert_eq!(bootstrap_invocations(&Vec::new()).len(), 0);
}

#[test]
fn foreign_extension_id_produces_zero_invocations() {
    let entries = vec![HierarchyEntry { deviceid: 4, device_type: 3, flags: 0xff }];
    let n = Notification { response_type: GENERIC_EVENT_CODE, extension_opcode: 131, entries };
    let out = notification_invocations(&n, 130, &vec![None]);
    assert!(out.is_empty());
    assert!(!should_dispatch(GENERIC_EVENT_CODE, 131, 130));
}

#[test]
fn non_generic_event_type_produces_zero_invocations() {
    let entries = vec![HierarchyEntry { deviceid: 4, device_type: 3, flags: 0xff }];
    let n = Notification { response_type: 2, extension_opcode: 130, entries };
    let out = notification_invocations(&n, 130, &vec![None]);
    assert!(out.is_empty());
    assert!(!should_dispatch(2, 130, 130));
    assert!(should_dispatch(GENERIC_EVENT_CODE, 130, 130));
}

#[test]
fn notification_decomposes_flags_highest_bit_first() {
    let e = HierarchyEntry { deviceid: 9, device_type: 4, flags: 0x44 };
    let reply = vec![DeviceInfoRecord { deviceid: 9, device_type: 4, name: b"usb keyboard".to_vec() }];
    let n = Notification { response_type: GENERIC_EVENT_CODE, extension_opcode: 130, entries: vec![e] };
    let out = notification_invocations(&n, 130, &vec![Some(reply)]);
    assert_eq!(out.len(), 2);
    assert_eq!(
        out[0].to_args(),
        vec!["XIDeviceEnabled", "9", "XISlaveKeyboard", "usb keyboard"]
    );
    assert_eq!(
        out[1].to_args(),
        vec!["XISlaveAdded", "9", "XISlaveKeyboard", "usb keyboard"]
    );
}

#[test]
fn undefined_change_bits_are_skipped() {
    let e = HierarchyEntry { deviceid: 1, device_type: 1, flags: 0x8000_0001 };
    let out = entry_invocations(&e, None);
    assert_eq!(out.len(), 1);
    assert_eq!(out[0].to_args()[0], "XIMasterAdded");
    let quiet = HierarchyEntry { deviceid: 1, device_type: 1, flags: 0 };
    assert_eq!(entry_invocations(&quiet, None).len(), 0);
}

#[test]
fn plan_carries_command_then_invocation_fields() {
    let e = HierarchyEntry { deviceid: 3, device_type: 5, flags: 0 };
    let d = descriptor_from_hierarchy(&e, None);
    let inv = format_invocation(HierarchyChangeFlag::SlaveDetached, &d);
    let opt = options("on-change", false, false);
    let p = plan_invocation(&opt, &inv);
    assert_eq!(
        p.argv,
        vec!["on-change", "XISlaveDetached", "3", "XIFloatingSlave", ""]
    );
    assert!(!p.trace);
    assert!(p.spawn);
}

#[test]
fn dry_run_plans_identical_trace_but_never_spawns() {
    let e = HierarchyEntry { deviceid: 8, device_type: 2, flags: 0 };
    let d = descriptor_from_hierarchy(&e, None);
    let inv = format_invocation(HierarchyChangeFlag::MasterRemoved, &d);
    let normal = options("on-change", true, false);
    let dry = options("on-change", true, true);
    let p1 = plan_invocation(&normal, &inv);
    let p2 = plan_invocation(&dry, &inv);
    assert_eq!(p1.argv, p2.argv);
    assert_eq!(p1.trace, p2.trace);
    assert!(p1.trace);
    assert!(p1.spawn);
    assert!(!p2.spawn);
}
