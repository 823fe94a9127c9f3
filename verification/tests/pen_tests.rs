use pinenote_dbus_service::pen::{
    auto_connect_address, auto_connect_succeeded, check_mac, forget_address, is_registered,
    pen_do_scan, pen_file, set_address, start_pen_scan,
};
use pinenote_dbus_service::sys_handler::{read_file, SysfsWrite};

const DIR: &str = "/sys/devices/platform/spi-gpio/spi_master/spi4/spi4.0/";

#[test]
fn check_mac_shape() {
    assert!(check_mac("12:23:45:56:90:4b".to_string()));
    assert!(check_mac("AB:cd:EF:01:23:45".to_string()));
    assert!(!check_mac("ta:19:41:03:34:2b".to_string()));
    assert!(!check_mac("xx:xx:xx:xx:xx:xx".to_string()));
    assert!(!check_mac("zz:zz:zz:zz:zz:zz".to_string()));
    assert!(!check_mac("12:23:45:56:90x4b".to_string()));
    assert!(!check_mac("12:23:45:56:9g:4b".to_string()));
    assert!(!check_mac("12:23:45:56:90:4".to_string()));
    assert!(!check_mac("12:23:45:56:90:4bc".to_string()));
    assert!(!check_mac("12-23-45-56-90-4b".to_string()));
    assert!(!check_mac("12:23:45-56:90:4b".to_string()));
    assert!(!check_mac(String::new()));
    assert!(!check_mac("é2:23:45:56:90:4b".to_string()));
}

#[test]
fn pen_files() {
    assert_eq!(pen_file("scan"), format!("{DIR}scan"));
    assert_eq!(start_pen_scan(), SysfsWrite { path: format!("{DIR}scan"), value: "1".into() });
}

#[test]
fn scan_skips_two_header_lines_and_keeps_addresses() {
    let results = "12:23:45:56:90:4b\nheader two\naa:bb:cc:dd:ee:ff\nnot a mac\n11:22:33:44:55:66";
    assert_eq!(pen_do_scan(results), vec!["aa:bb:cc:dd:ee:ff", "11:22:33:44:55:66"]);
}

#[test]
fn scan_with_crlf_lines() {
    let results = "h1\r\nh2\r\naa:bb:cc:dd:ee:ff\r\n11:22:33:44:55:66\r";
    assert_eq!(pen_do_scan(results), vec!["aa:bb:cc:dd:ee:ff"]);
}

#[test]
fn scan_with_few_lines_finds_nothing() {
    assert!(pen_do_scan("").is_empty());
    assert!(pen_do_scan("aa:bb:cc:dd:ee:ff").is_empty());
    assert!(pen_do_scan("a\naa:bb:cc:dd:ee:ff").is_empty());
    assert!(pen_do_scan("a\nb\n").is_empty());
}

#[test]
fn scan_after_read_file() {
    let raw = "Scanning\nFound:\naa:bb:cc:dd:ee:ff\n\n";
    assert_eq!(pen_do_scan(&read_file(raw)), vec!["aa:bb:cc:dd:ee:ff"]);
}

#[test]
fn address_writes() {
    assert_eq!(
        set_address("aa:bb:cc:dd:ee:ff"),
        SysfsWrite { path: format!("{DIR}pen_address"), value: "aa:bb:cc:dd:ee:ff".into() }
    );
    assert_eq!(forget_address().value, "00:00:00:00:00:00");
    assert_eq!(forget_address().path, format!("{DIR}pen_address"));
}

#[test]
fn registration() {
    assert!(!is_registered("00:00:00:00:00:00"));
    assert!(is_registered("aa:bb:cc:dd:ee:ff"));
    assert!(is_registered(""));
    assert!(!is_registered(&read_file(&format!("{}\n", forget_address().value))));
    assert!(is_registered(&read_file(&format!("{}\n", set_address("aa:bb:cc:dd:ee:ff").value))));
}

#[test]
fn auto_connect() {
    assert_eq!(auto_connect_address(&vec![]), None);
    let macs = vec!["aa:bb:cc:dd:ee:ff".to_string(), "11:22:33:44:55:66".to_string()];
    assert_eq!(auto_connect_address(&macs), Some(set_address("aa:bb:cc:dd:ee:ff")));
    assert!(auto_connect_succeeded("1.2"));
    assert!(auto_connect_succeeded("é"));
    assert!(!auto_connect_succeeded(""));
}
