use statusbar::format::{format_clock, format_volume, readable_bytes, ClockTime};
use statusbar::sensors::{
    check_interface_enable, check_interface_up, get_brightness, get_country_code, get_fan_speed,
    get_volume, ip_addresses, read_int, volume_from_capture, SensorError,
};

#[test]
fn readable_bytes_zero() {
    assert_eq!(readable_bytes(0), Some("0.00B".to_string()));
}

#[test]
fn readable_bytes_one_and_a_half_kilobytes() {
    assert_eq!(readable_bytes(1536), Some("1.50KB".to_string()));
}

#[test]
fn readable_bytes_unit_edges() {
    assert_eq!(readable_bytes(1023), Some("1023.00B".to_string()));
    assert_eq!(readable_bytes(1024), Some("1.00KB".to_string()));
    assert_eq!(readable_bytes(1048576), Some("1.00MB".to_string()));
    assert_eq!(readable_bytes(5 * 1073741824), Some("5.00GB".to_string()));
    assert_eq!(readable_bytes(1099511627776), Some("1.00TB".to_string()));
    assert_eq!(readable_bytes(1125899906842624), Some("1.00PB".to_string()));
}

#[test]
fn readable_bytes_rounds_ties_to_even() {
    // 1152 bytes are exactly 1.125 KB
    assert_eq!(readable_bytes(1152), Some("1.12KB".to_string()));
    // 1664 bytes are exactly 1.625 KB
    assert_eq!(readable_bytes(1664), Some("1.62KB".to_string()));
    assert_eq!(readable_bytes(1030), Some("1.01KB".to_string()));
}

#[test]
fn readable_bytes_out_of_range() {
    assert_eq!(readable_bytes(1u64 << 60), None);
    assert_eq!(readable_bytes(u64::MAX), None);
    assert_eq!(readable_bytes((1u64 << 60) - 1), Some("1024.00PB".to_string()));
}

#[test]
fn readable_bytes_stays_within_one_unit() {
    for n in [0u64, 1, 999, 1025, 123456, 98765432, 1u64 << 40, (1u64 << 50) + 12345] {
        let s = readable_bytes(n).unwrap();
        let (num, unit) = s.split_at(s.find(|c: char| c.is_ascii_alphabetic()).unwrap());
        let size: f64 = match unit {
            "B" => 1.0,
            "KB" => 1024.0,
            "MB" => 1048576.0,
            "GB" => 1073741824.0,
            "TB" => 1099511627776.0,
            _ => 1125899906842624.0,
        };
        let value: f64 = num.parse().unwrap();
        assert!((value * size - n as f64).abs() <= size);
    }
}

#[test]
fn format_volume_muted() {
    assert_eq!(format_volume(0), "\u{eee8}  0");
}

#[test]
fn format_volume_levels() {
    assert_eq!(format_volume(1), "\u{f028}  1");
    assert_eq!(format_volume(42), "\u{f028}  42");
    assert_eq!(format_volume(100), "\u{f028}  100");
    assert!(!format_volume(100).starts_with('\u{eee8}'));
}

#[test]
fn format_clock_pads() {
    let t = ClockTime { hour: 7, minute: 5, second: 9 };
    assert_eq!(format_clock(&t), "07:05:09");
    let t = ClockTime { hour: 23, minute: 59, second: 59 };
    assert_eq!(format_clock(&t), "23:59:59");
}

#[test]
fn volume_from_mixer_output() {
    let out = "Volume: front-left: 27525 /  42% / -22.63 dB,   front-right: 27525 /  42% / -22.63 dB\n        balance 0.00\n";
    assert_eq!(get_volume(out), Some(42));
    assert_eq!(get_volume("Volume: mono: 65536 / 100% / 0.00 dB"), Some(100));
    assert_eq!(get_volume("Failed to get sink volume: No such entity"), None);
    assert_eq!(get_volume("volume 42%"), None);
    assert_eq!(get_volume("Volume: front-left: 98304 / 150% / 10.57 dB"), Some(100));
}

#[test]
fn volume_from_captured_digits() {
    assert_eq!(volume_from_capture(Some("42")), Some(42));
    assert_eq!(volume_from_capture(Some("100")), Some(100));
    assert_eq!(volume_from_capture(Some("101")), Some(100));
    assert_eq!(volume_from_capture(Some("99999999999")), None);
    assert_eq!(volume_from_capture(None), None);
}

#[test]
fn country_code_from_status() {
    let out = "Status: Connected\nHostname: de1234.nordvpn.com\nIP: 1.2.3.4\n";
    assert_eq!(get_country_code(out), Some("DE".to_string()));
    assert_eq!(get_country_code("Hostname:\nHostname:   x\n"), Some("X".to_string()));
    assert_eq!(get_country_code("Status: Disconnected\n"), None);
    assert_eq!(get_country_code(""), None);
}

#[test]
fn interface_link_state() {
    assert!(check_interface_up(Some("up\n")));
    assert!(!check_interface_up(Some("down\n")));
    assert!(!check_interface_up(None));
    assert!(check_interface_enable(Some("1\n")));
    assert!(!check_interface_enable(Some("0\n")));
    assert!(!check_interface_enable(None));
}

#[test]
fn integer_sensor_files() {
    assert_eq!(get_fan_speed(Some(" 2400\n")), Ok(2400));
    assert_eq!(read_int(Some("+7")), Ok(7));
    assert_eq!(get_fan_speed(Some("fast")), Err(SensorError::ParseFailure));
    assert_eq!(read_int(Some("4294967296")), Err(SensorError::ParseFailure));
    assert_eq!(get_fan_speed(None), Err(SensorError::Unavailable));
}

#[test]
fn brightness_percent() {
    assert_eq!(get_brightness(Some("50\n"), Some("100\n")), Ok(50));
    assert_eq!(get_brightness(Some("1\n"), Some("3\n")), Ok(33));
    assert_eq!(get_brightness(Some("5"), Some("0")), Err(SensorError::Invalid));
    assert_eq!(get_brightness(None, Some("100")), Err(SensorError::Unavailable));
    assert_eq!(get_brightness(Some("x"), Some("100")), Err(SensorError::ParseFailure));
}

#[test]
fn ip_addresses_skip_loopback() {
    let out = "1: lo: <LOOPBACK,UP> mtu 65536\n    inet 127.0.0.1/8 scope host lo\n2: enp3s0: <BROADCAST,UP> mtu 1500\n    inet 192.168.1.10/24 brd 192.168.1.255 scope global dynamic enp3s0\n    inet6 fe80::1/64 scope link\n";
    assert_eq!(ip_addresses(out), vec!["enp3s0 192.168.1.10/24".to_string()]);
}

#[test]
fn ip_addresses_several_and_none() {
    let out = "    inet 10.0.0.2/8 scope global wlp2s0\n    inet 10.5.0.2/16 scope global nordlynx\n";
    assert_eq!(
        ip_addresses(out),
        vec!["wlp2s0 10.0.0.2/8".to_string(), "nordlynx 10.5.0.2/16".to_string()]
    );
    assert!(ip_addresses("").is_empty());
    assert!(ip_addresses("link/ether 00:11:22:33:44:55").is_empty());
}
