use flicker::gui::{append_log, device_menu_entries, elevation_command_args, log_write_error, select_flash_target, write_outcome_status};
use flicker::usb::UsbDevice;

#[test]
fn menu_entries_of_devices() {
    let d = UsbDevice {
        path: "/dev/sdb".to_string(),
        name: "sdb".to_string(),
        size: 16013942784,
        vendor: "SanDisk".to_string(),
        model: "Ultra ".to_string(),
        is_mounted: false,
        mount_points: vec![],
        serial: None,
    };
    assert_eq!(device_menu_entries(&[d]), vec!["/dev/sdb - Ultra  (14.92 GB)"]);
    assert_eq!(device_menu_entries(&[]), vec!["No USB devices found"]);
}

#[test]
fn flash_target_from_menu_entry() {
    assert_eq!(
        select_flash_target("/home/u/a.iso", "/dev/sdb - Ultra (14.92 GB)"),
        Some(("sdb".to_string(), "/dev/sdb".to_string()))
    );
    assert_eq!(select_flash_target("No ISO selected", "/dev/sdb - Ultra (1 B)"), None);
    assert_eq!(select_flash_target("/a.iso", ""), None);
    assert_eq!(select_flash_target("/a.iso", "Loading devices..."), None);
    assert_eq!(
        select_flash_target("/a.iso", "No USB devices found"),
        Some(("No USB devices found".to_string(), "/dev/No USB devices found".to_string()))
    );
    assert_eq!(
        select_flash_target("/a.iso", "x/dev//dev/sdc -"),
        Some(("xsdc".to_string(), "/dev/xsdc".to_string()))
    );
}

#[test]
fn log_lines_end_with_line_feed() {
    let mut logs = String::from("a\n");
    append_log(&mut logs, "b");
    assert_eq!(logs, "a\nb\n");
}

#[test]
fn elevation_arguments() {
    let args = vec!["flicker".to_string(), "list".to_string()];
    assert_eq!(
        elevation_command_args("/usr/bin/flicker", &args, ":0", "", "", "/run/user/1000", "", Some("/home/u")),
        vec![
            "env",
            "DISPLAY=:0",
            "XAUTHORITY=/home/u/.Xauthority",
            "XDG_RUNTIME_DIR=/run/user/1000",
            "/usr/bin/flicker",
            "list"
        ]
    );
    assert_eq!(
        elevation_command_args("/x", &vec![], "", "/tmp/xa", "wayland-0", "", "unix:path=/b", None),
        vec!["env", "XAUTHORITY=/tmp/xa", "WAYLAND_DISPLAY=wayland-0", "DBUS_SESSION_BUS_ADDRESS=unix:path=/b", "/x"]
    );
}

#[test]
fn write_outcome_texts() {
    assert_eq!(write_outcome_status(None), "✅ Write completed successfully!");
    assert_eq!(
        write_outcome_status(Some("Failed to open device: \"/dev/sdb\"")),
        "❌ Error: Failed to open device: \"/dev/sdb\""
    );
    let mut logs = String::from("📀 Writing\n");
    log_write_error(&mut logs, "Verification failed");
    assert_eq!(logs, "📀 Writing\n\nERROR: Verification failed\n");
}
