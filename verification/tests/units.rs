use flicker::units::format_size;
use flicker::usb::UsbDevice;

fn device(size: u64) -> UsbDevice {
    UsbDevice {
        path: "/dev/sdb".to_string(),
        name: "sdb".to_string(),
        size,
        vendor: "SanDisk".to_string(),
        model: "Ultra".to_string(),
        is_mounted: false,
        mount_points: vec![],
        serial: None,
    }
}

#[test]
fn test_format_size() {
    assert_eq!(format_size(512), "512 B");
    assert_eq!(format_size(1024), "1.00 KB");
    assert_eq!(format_size(1024 * 1024), "1.00 MB");
    assert_eq!(format_size(1024 * 1024 * 1024), "1.00 GB");
}

#[test]
fn format_size_unit_boundaries() {
    assert_eq!(format_size(0), "0 B");
    assert_eq!(format_size(1023), "1023 B");
    assert_eq!(format_size(1024 * 1024 - 1), "1024.00 KB");
    assert_eq!(format_size(1024u64.pow(4)), "1.00 TB");
    assert_eq!(format_size(u64::MAX), "16777216.00 TB");
}

#[test]
fn format_size_rounds_up_to_the_next_hundredth() {
    // 1152 / 1024 = 1.125 exactly.
    assert_eq!(format_size(1152), "1.13 KB");
    // 1025 / 1024 = 1.0009...: any excess shows.
    assert_eq!(format_size(1025), "1.01 KB");
    // 1536 / 1024 = 1.5 exactly stays as it is.
    assert_eq!(format_size(1536), "1.50 KB");
    assert_eq!(format_size(16013942784), "14.92 GB");
    assert_eq!(format_size(32026656768), "29.83 GB");
    assert_eq!(format_size(4_000_000_000), "3.73 GB");
}

#[test]
fn format_size_never_shows_less_than_the_size() {
    let units: [u64; 5] = [1, 1 << 10, 1 << 20, 1 << 30, 1 << 40];
    let mut x: u64 = 0x9E3779B97F4A7C15;
    for _ in 0..20000 {
        x ^= x << 13;
        x ^= x >> 7;
        x ^= x << 17;
        let size = x >> (x % 64);
        let shown = format_size(size);
        if size >= 1024 {
            let k = if size < 1 << 20 { 1 } else if size < 1 << 30 { 2 } else if size < 1 << 40 { 3 } else { 4 };
            let number = shown.split(' ').next().unwrap().replace('.', "");
            let hundredths: u128 = number.parse().unwrap();
            let unit = units[k] as u128;
            assert!(hundredths * unit >= size as u128 * 100, "size {}", size);
            assert!((hundredths - 1) * unit < size as u128 * 100, "size {}", size);
        } else {
            assert_eq!(shown, format!("{} B", size));
        }
    }
}

#[test]
fn size_human_and_description() {
    let d = device(16013942784);
    assert_eq!(d.size_human(), "14.92 GB");
    assert_eq!(d.description(), "SanDisk Ultra (14.92 GB)");
    let mut d2 = device(32026656768);
    d2.vendor = "  Kingston ".to_string();
    d2.model = "DataTraveler 3.0\n".to_string();
    assert_eq!(d2.description(), "Kingston DataTraveler 3.0 (29.83 GB)");
    assert_eq!(device(512).description(), "SanDisk Ultra (512 B)");
}
