use flicker::checks::{require_root_privileges, validate_device_path, validate_iso_file, ValidationError};

#[test]
fn root_is_required() {
    assert_eq!(require_root_privileges(0), Ok(()));
    let e = require_root_privileges(1000).unwrap_err();
    assert_eq!(e, ValidationError::RootRequired);
    assert_eq!(
        e.message(),
        "❌ Root privileges required!\n\n💡 Please run with sudo:\n   sudo flicker write --iso <file> --device <device>"
    );
}

#[test]
fn device_path_checks() {
    let e = validate_device_path("/dev/sdb", false, Some(true)).unwrap_err();
    assert_eq!(e, ValidationError::DeviceMissing("/dev/sdb".to_string()));
    assert_eq!(e.message(), "❌ Device does not exist: /dev/sdb");
    let e = validate_device_path("/dev/sdb", true, None).unwrap_err();
    assert_eq!(e.message(), "Failed to get device metadata");
    let e = validate_device_path("/tmp/x", true, Some(false)).unwrap_err();
    assert_eq!(e.message(), "❌ \"/tmp/x\" is not a block device");
    assert_eq!(validate_device_path("/dev/sdb", true, Some(true)), Ok(()));
}

#[test]
fn iso_file_checks() {
    let mib = 1024 * 1024;
    let p = "/path/to/file.iso";
    let e = validate_iso_file(p, false, true, Some(mib), Some("iso")).unwrap_err();
    assert_eq!(e.message(), "❌ ISO file does not exist: \"/path/to/file.iso\"");
    let e = validate_iso_file(p, true, false, Some(mib), Some("iso")).unwrap_err();
    assert_eq!(e.message(), "❌ \"/path/to/file.iso\" is not a file");
    let e = validate_iso_file(p, true, true, None, Some("iso")).unwrap_err();
    assert_eq!(e.message(), "Failed to get ISO file metadata");
    let e = validate_iso_file(p, true, true, Some(mib - 1), Some("iso")).unwrap_err();
    assert_eq!(e, ValidationError::IsoTooSmall(mib - 1));
    assert_eq!(e.message(), "❌ File seems too small to be a valid ISO (1024.00 KB)");
    assert_eq!(validate_iso_file(p, true, true, Some(mib), Some("iso")), Ok(false));
    assert_eq!(validate_iso_file(p, true, true, Some(mib), Some("IMG")), Ok(false));
    assert_eq!(validate_iso_file(p, true, true, Some(mib), Some("zip")), Ok(true));
    assert_eq!(validate_iso_file(p, true, true, Some(mib), None), Ok(false));
    // Special characters are escaped inside the quotes.
    let e = validate_iso_file("a\"b", false, false, None, None).unwrap_err();
    assert_eq!(e.message(), "❌ ISO file does not exist: \"a\\\"b\"");
}
