use flicker::session::{
    confirms, confirms_in_capitals, erase_warning, SessionError, SessionStep, WriteSession,
};
use flicker::usb::UsbDevice;

fn usb(name: &str, size: u64, mounted: bool) -> UsbDevice {
    UsbDevice {
        path: format!("/dev/{}", name),
        name: name.to_string(),
        size,
        vendor: "SanDisk".to_string(),
        model: "Ultra".to_string(),
        is_mounted: mounted,
        mount_points: if mounted { vec!["/media/x".to_string()] } else { vec![] },
        serial: None,
    }
}

#[test]
fn final_confirmation_answers() {
    assert!(confirms("yes"));
    assert!(confirms("  YES\n"));
    assert!(confirms("Yes\r\n"));
    assert!(!confirms("y"));
    assert!(!confirms("yess"));
    assert!(!confirms(""));
    assert!(!confirms("no"));
}

#[test]
fn not_usb_confirmation_answers() {
    assert!(confirms_in_capitals("YES\n"));
    assert!(confirms_in_capitals(" YES "));
    assert!(!confirms_in_capitals("yes"));
    assert!(!confirms_in_capitals("Yes"));
    assert!(!confirms_in_capitals("YESS"));
}

#[test]
fn session_usb_device_confirmed_and_written() {
    let mut s = WriteSession::new(1000, 1, vec![usb("sdb", 5000, false)], false);
    assert_eq!(s.next_step(), SessionStep::ValidateDevice(0));
    s.device_checked("sdb");
    assert_eq!(s.next_step(), SessionStep::ConfirmErase);
    s.answered("yes\n");
    assert_eq!(s.next_step(), SessionStep::StartWrite);
}

#[test]
fn session_final_refusal_cancels() {
    let mut s = WriteSession::new(1000, 1, vec![usb("sdb", 5000, false)], false);
    s.device_checked("sdb");
    s.answered("no");
    assert_eq!(s.next_step(), SessionStep::Cancelled);
}

#[test]
fn session_image_too_large_fails() {
    let mut s = WriteSession::new(6000, 2, vec![usb("sdb", 5000, false)], true);
    s.device_checked("sdb");
    assert_eq!(
        s.next_step(),
        SessionStep::Failed(SessionError::ImageTooLarge {
            device: 0,
            iso_size: 6000,
            device_size: 5000
        })
    );
}

#[test]
fn session_mounted_device_is_unmounted() {
    let mut s = WriteSession::new(1000, 2, vec![usb("sdb", 5000, true), usb("sdc", 5000, false)], true);
    s.device_checked("sdb");
    assert_eq!(s.next_step(), SessionStep::Unmount(0));
    s.unmounted_device();
    assert_eq!(s.next_step(), SessionStep::ValidateDevice(1));
    s.device_checked("sdc");
    assert_eq!(s.next_step(), SessionStep::StartWrite);
}

#[test]
fn session_internal_disk_needs_capital_yes() {
    let mut s = WriteSession::new(1000, 1, vec![usb("sdb", 5000, false)], false);
    s.device_checked("sda");
    assert_eq!(s.next_step(), SessionStep::ConfirmNotUsb(0));
    s.answered("yes");
    assert_eq!(s.next_step(), SessionStep::Cancelled);

    let mut s = WriteSession::new(1000, 1, vec![usb("sdb", 5000, false)], false);
    s.device_checked("sda");
    s.answered("YES");
    assert_eq!(s.next_step(), SessionStep::ConfirmErase);
    s.answered("YES");
    assert_eq!(s.next_step(), SessionStep::StartWrite);
}

#[test]
fn session_skipped_confirmations() {
    let mut s = WriteSession::new(1000, 1, vec![], true);
    s.device_checked("sda");
    assert_eq!(s.next_step(), SessionStep::StartWrite);
}

#[test]
fn final_warning_text() {
    let targets = vec![
        ("/dev/sdb".to_string(), "sdb".to_string()),
        ("/dev/sda".to_string(), "sda".to_string()),
    ];
    let listed = vec![usb("sdb", 16013942784, false)];
    let rule = "=".repeat(60);
    let expected = [
        "\n", &rule, "\n",
        "⚠️  FINAL WARNING ⚠️\n",
        &rule, "\n",
        "\n",
        "This will COMPLETELY ERASE all data on the following devices:\n",
        "   - /dev/sdb (14.92 GB)\n",
        "   - /dev/sda (0 B)\n",
        "\n",
        "And write:\n",
        "   ISO:    ubuntu.iso\n",
        "   Size:   1.00 GB\n",
        "\n   [Resume Mode] Will skip writing data that already matches.\n",
        "\n",
        &rule, "\n",
    ]
    .concat();
    assert_eq!(erase_warning(&targets, &listed, "ubuntu.iso", 1 << 30, true), expected);
    let without_resume = expected.replace("\n   [Resume Mode] Will skip writing data that already matches.\n", "");
    assert_eq!(erase_warning(&targets, &listed, "ubuntu.iso", 1 << 30, false), without_resume);
}
