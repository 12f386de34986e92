use flicker::usb::{
    check_if_usb_device, check_mount_status, device_list, is_listed_block_device, is_removable_attribute,
    mounted_partitions, DetectError, UsbDevice,
};

const MOUNTS: &str = "sysfs /sys sysfs rw,nosuid 0 0\n\
/dev/sda1 / ext4 rw,relatime 0 0\n\
/dev/sdc1 /media/user/KINGSTON vfat rw 0 0\n\
\n\
/dev/sdc2 /media/user/DATA vfat rw 0 0\r\n\
onlyonefield\n\
/dev/sdc3\t/mnt/c  ext4";

fn usb(name: &str, size: u64, mounted: &[&str]) -> UsbDevice {
    UsbDevice {
        path: format!("/dev/{}", name),
        name: name.to_string(),
        size,
        vendor: "SanDisk".to_string(),
        model: "Ultra".to_string(),
        is_mounted: !mounted.is_empty(),
        mount_points: mounted.iter().map(|s| s.to_string()).collect(),
        serial: None,
    }
}

#[test]
fn mount_table_partitions() {
    let parts = mounted_partitions(MOUNTS, "sdc");
    assert_eq!(
        parts,
        vec![
            ("/dev/sdc1".to_string(), "/media/user/KINGSTON".to_string()),
            ("/dev/sdc2".to_string(), "/media/user/DATA".to_string()),
            ("/dev/sdc3".to_string(), "/mnt/c".to_string()),
        ]
    );
    assert_eq!(mounted_partitions(MOUNTS, "sdb"), vec![]);
    // The first field is searched for the name anywhere in it.
    assert_eq!(mounted_partitions(MOUNTS, "sys").len(), 1);
    assert_eq!(mounted_partitions("", "sda"), vec![]);
}

#[test]
fn mount_status_lists_mount_points() {
    let (mounted, points) = check_mount_status(MOUNTS, "sdc");
    assert!(mounted);
    assert_eq!(points, vec!["/media/user/KINGSTON", "/media/user/DATA", "/mnt/c"]);
    let (mounted, points) = check_mount_status(MOUNTS, "sdz");
    assert!(!mounted);
    assert!(points.is_empty());
}

#[test]
fn virtual_block_devices_are_skipped() {
    assert!(!is_listed_block_device("loop0"));
    assert!(!is_listed_block_device("ram1"));
    assert!(!is_listed_block_device("dm-0"));
    assert!(is_listed_block_device("sdb"));
    assert!(is_listed_block_device("dm"));
    assert!(is_listed_block_device("nvme0n1"));
}

#[test]
fn usb_device_from_sysfs_attributes() {
    let d = check_if_usb_device(
        "sdc",
        Some("1\n"),
        Some("62552064\n"),
        Some("Kingston"),
        Some("DataTraveler 3.0\n"),
        Some(" 123 \n"),
        Some(MOUNTS),
    )
    .unwrap();
    assert_eq!(d.path, "/dev/sdc");
    assert_eq!(d.name, "sdc");
    assert_eq!(d.size, 62552064 * 512);
    assert_eq!(d.vendor, "Kingston");
    assert_eq!(d.model, "DataTraveler 3.0");
    assert_eq!(d.serial, Some("123".to_string()));
    assert!(d.is_mounted);
    assert_eq!(d.mount_points.len(), 3);

    let d = check_if_usb_device("sdb", Some("1"), Some("100"), None, None, None, Some(""))
        .unwrap();
    assert_eq!(d.vendor, "Unknown");
    assert_eq!(d.model, "Device");
    assert_eq!(d.serial, None);
    assert!(!d.is_mounted);
    assert_eq!(d.size, 51200);
}

#[test]
fn non_removable_device_with_huge_size_is_refused() {
    let huge = u64::MAX.to_string();
    assert_eq!(
        check_if_usb_device("sda", Some("0"), Some(&huge), None, None, None, Some("")).unwrap_err(),
        DetectError::NotRemovable
    );
    assert!(!is_removable_attribute(Some("0\n")));
    assert!(!is_removable_attribute(None));
    assert!(is_removable_attribute(Some(" 1\n")));
    assert_eq!(DetectError::NotRemovable.message(), "Not a removable device");
    assert_eq!(DetectError::SizeNotANumber.message(), "Failed to parse device size");
}

#[test]
fn usb_device_detection_errors() {
    assert_eq!(
        check_if_usb_device("sda", Some("0\n"), Some("1"), None, None, None, Some("")).unwrap_err(),
        DetectError::NotRemovable
    );
    assert_eq!(
        check_if_usb_device("sda", None, Some("1"), None, None, None, Some("")).unwrap_err(),
        DetectError::NotRemovable
    );
    assert_eq!(
        check_if_usb_device("sda", Some("1"), None, None, None, None, Some("")).unwrap_err(),
        DetectError::SizeUnreadable
    );
    assert_eq!(
        check_if_usb_device("sda", Some("1"), Some("x"), None, None, None, Some("")).unwrap_err(),
        DetectError::SizeNotANumber
    );
    assert_eq!(
        check_if_usb_device("sda", Some("1"), Some("8"), None, None, None, None).unwrap_err(),
        DetectError::MountsUnreadable
    );
}

#[test]
fn device_listing_without_devices() {
    assert_eq!(
        device_list(&[], false),
        "❌ No USB devices found\n\n💡 Tips:\n   • Make sure your USB device is connected\n   • Try running with sudo if you don't see expected devices\n"
    );
}

#[test]
fn device_listing_plain_and_verbose() {
    let mut sdb = usb("sdb", 16013942784, &[]);
    sdb.serial = Some("4C530001234567890123".to_string());
    let mut sdc = usb("sdc", 32026656768, &["/media/user/KINGSTON", "/media/user/DATA"]);
    sdc.vendor = "Kingston".to_string();
    sdc.model = "DataTraveler 3.0".to_string();
    let devices = vec![sdb, sdc];
    let plain = [
        "📀 Available USB devices:\n\n",
        "  /dev/sdb - SanDisk Ultra (14.92 GB)\n",
        "  /dev/sdc - Kingston DataTraveler 3.0 (29.83 GB) ⚠️  [MOUNTED]\n",
        "\n💡 Use 'flicker write --iso <file> --device <device>' to write an ISO\n",
        "\n⚠️  1 device(s) are currently mounted\n",
        "   Flicker will automatically unmount them before writing\n",
    ]
    .concat();
    assert_eq!(device_list(&devices, false), plain);
    let verbose = [
        "📀 Available USB devices:\n\n",
        "  /dev/sdb - SanDisk Ultra (14.92 GB)\n",
        "    ├─ Name:     sdb\n",
        "    ├─ Vendor:   SanDisk\n",
        "    ├─ Model:    Ultra\n",
        "    ├─ Size:     14.92 GB (16013942784 bytes)\n",
        "    ├─ Serial:   4C530001234567890123\n",
        "    └─ Mounted:  No\n",
        "\n",
        "  /dev/sdc - Kingston DataTraveler 3.0 (29.83 GB) ⚠️  [MOUNTED]\n",
        "    ├─ Name:     sdc\n",
        "    ├─ Vendor:   Kingston\n",
        "    ├─ Model:    DataTraveler 3.0\n",
        "    ├─ Size:     29.83 GB (32026656768 bytes)\n",
        "    ├─ Mounted:  Yes\n",
        "    ├─ Mount[0]: /media/user/KINGSTON\n",
        "    └─ Mount[1]: /media/user/DATA\n",
        "\n",
        "\n💡 Use 'flicker write --iso <file> --device <device>' to write an ISO\n",
        "\n⚠️  1 device(s) are currently mounted\n",
        "   Flicker will automatically unmount them before writing\n",
    ]
    .concat();
    assert_eq!(device_list(&devices, true), verbose);
}

fn reading(name: &str, removable: Option<&str>, size: Option<&str>) -> flicker::usb::BlockDeviceReading {
    flicker::usb::BlockDeviceReading {
        name: name.to_string(),
        removable: removable.map(|s| s.to_string()),
        size: size.map(|s| s.to_string()),
        vendor: Some("Kingston\n".to_string()),
        model: None,
        serial: None,
        mounts: Some(MOUNTS.to_string()),
    }
}

#[test]
fn usb_devices_among_block_devices() {
    let readings = vec![
        reading("loop0", Some("1\n"), Some("8\n")),
        reading("sda", Some("0\n"), Some("1000\n")),
        reading("sdc", Some("1\n"), Some("100\n")),
        reading("ram0", Some("1\n"), Some("8\n")),
        reading("sdd", Some("1\n"), None),
        reading("sdb", Some("1\n"), Some("8\n")),
    ];
    let found = flicker::usb::usb_devices_from(&readings);
    let names: Vec<&str> = found.iter().map(|d| d.name.as_str()).collect();
    assert_eq!(names, vec!["sdc", "sdb"]);
    assert_eq!(found[0].size, 51200);
    assert_eq!(found[0].vendor, "Kingston");
    assert_eq!(found[0].model, "Device");
    assert!(found[0].is_mounted);
    assert!(!found[1].is_mounted);
}
