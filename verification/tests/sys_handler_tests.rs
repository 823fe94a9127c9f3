use pinenote_dbus_service::sys_handler::{
    ebc_parameter_file, ebc_power_control_file, get_auto_refresh, get_bw_dither_invert,
    get_bw_mode, get_dclk_select, get_default_waveform, get_delay_a, get_no_off_screen,
    get_split_area_limit, read_ebc_energy_control, read_ebc_file_bool, read_ebc_file_u32,
    read_ebc_file_u8, read_file, set_auto_refresh, set_bw_dither_invert, set_bw_mode,
    set_dclk_select, set_default_waveform, set_delay_a, set_ebc_parameters, set_no_off_screen,
    set_split_area_limit, write_ebc_energy_control, write_to_file, SysfsWrite,
};

const DIR: &str = "/sys/module/rockchip_ebc/parameters/";

fn param(name: &str) -> String {
    format!("{DIR}{name}")
}

#[test]
fn parameter_paths() {
    assert_eq!(ebc_parameter_file("auto_refresh"), "/sys/module/rockchip_ebc/parameters/auto_refresh");
    assert_eq!(ebc_power_control_file(), "/sys/devices/platform/fdec0000.ebc/power/control");
}

#[test]
fn write_to_file_keeps_path_and_value() {
    let w = write_to_file("/tmp/x", "abc");
    assert_eq!(w, SysfsWrite { path: "/tmp/x".to_string(), value: "abc".to_string() });
}

#[test]
fn read_file_drops_trailing_whitespace() {
    assert_eq!(read_file("line one\nline two\n\n"), "line one\nline two");
    assert_eq!(read_file(""), "");
    assert_eq!(read_file(" x"), " x");
}

#[test]
fn boolean_setters_write_digits() {
    assert_eq!(set_auto_refresh(true), SysfsWrite { path: param("auto_refresh"), value: "1".into() });
    assert_eq!(set_auto_refresh(false).value, "0");
    assert_eq!(set_bw_dither_invert(true), SysfsWrite { path: param("bw_dither_invert"), value: "1".into() });
    assert_eq!(set_no_off_screen(false), SysfsWrite { path: param("no_off_screen"), value: "0".into() });
}

#[test]
fn numeric_setters_write_decimal() {
    assert_eq!(set_delay_a(1234), SysfsWrite { path: param("delay_a"), value: "1234".into() });
    assert_eq!(set_split_area_limit(8), SysfsWrite { path: param("split_area_limit"), value: "8".into() });
    assert_eq!(set_default_waveform(2), SysfsWrite { path: param("default_waveform"), value: "2".into() });
    assert_eq!(set_bw_mode(255), SysfsWrite { path: param("bw_mode"), value: "255".into() });
    assert_eq!(set_dclk_select(0), SysfsWrite { path: param("dclk_select"), value: "0".into() });
}

#[test]
fn set_ebc_parameters_writes_waveform_then_bw_mode() {
    let w = set_ebc_parameters(4, 1);
    assert_eq!(w, vec![set_default_waveform(4), set_bw_mode(1)]);
}

#[test]
fn boolean_readings() {
    assert_eq!(read_ebc_file_bool("Y\n"), Some(true));
    assert_eq!(read_ebc_file_bool("N\n"), Some(false));
    assert_eq!(read_ebc_file_bool("1"), Some(true));
    assert_eq!(read_ebc_file_bool(" 0 \n"), Some(false));
    assert_eq!(read_ebc_file_bool("y\n"), None);
    assert_eq!(read_ebc_file_bool("YN\n"), None);
    assert_eq!(read_ebc_file_bool(""), None);
    assert_eq!(read_ebc_file_bool("2"), None);
}

#[test]
fn boolean_getters() {
    assert!(get_auto_refresh("Y\n"));
    assert!(!get_bw_dither_invert("N\n"));
    assert!(get_no_off_screen("1\n"));
}

#[test]
fn numeric_readings() {
    assert_eq!(read_ebc_file_u32("100\n"), Some(100));
    assert_eq!(read_ebc_file_u32("+5 \n"), Some(5));
    assert_eq!(read_ebc_file_u32(" 5\n"), None);
    assert_eq!(read_ebc_file_u32("-1\n"), None);
    assert_eq!(read_ebc_file_u32("4294967296\n"), None);
    assert_eq!(read_ebc_file_u8("255\n"), Some(255));
    assert_eq!(read_ebc_file_u8("256\n"), None);
    assert_eq!(read_ebc_file_u8("-1\n"), None);
}

#[test]
fn numeric_getters() {
    assert_eq!(get_delay_a("10\n"), 10);
    assert_eq!(get_split_area_limit("8\n"), 8);
    assert_eq!(get_default_waveform("1\n"), 1);
    assert_eq!(get_bw_mode("0\n"), 0);
    assert_eq!(get_dclk_select("1\n"), 1);
}

#[test]
fn numeric_reading_rejects_text() {
    assert_eq!(read_ebc_file_u32("many\n"), None);
    assert_eq!(read_ebc_file_u8("\n"), None);
}

#[test]
fn energy_control() {
    assert_eq!(
        write_ebc_energy_control("auto"),
        Some(SysfsWrite { path: "/sys/devices/platform/fdec0000.ebc/power/control".into(), value: "auto".into() })
    );
    assert_eq!(write_ebc_energy_control("on").map(|w| w.value), Some("on".to_string()));
    assert_eq!(write_ebc_energy_control("off"), None);
    assert_eq!(write_ebc_energy_control("on\n"), None);
    assert_eq!(write_ebc_energy_control(""), None);
    assert_eq!(read_ebc_energy_control("on\n"), "on");
}

#[test]
fn what_a_setter_writes_reads_back() {
    for b in [true, false] {
        let w = set_auto_refresh(b);
        assert_eq!(get_auto_refresh(&format!("{}\n", w.value)), b);
        assert_eq!(get_no_off_screen(&w.value), b);
    }
    for n in [0u32, 7, 8, 65535, u32::MAX] {
        let w = set_delay_a(n);
        assert_eq!(get_delay_a(&format!("{}\n", w.value)), n);
        assert_eq!(get_split_area_limit(&format!("{} \t", set_split_area_limit(n).value)), n);
    }
    for n in [0u8, 1, 9, 10, 255] {
        assert_eq!(get_default_waveform(&format!("{}\n", set_default_waveform(n).value)), n);
        assert_eq!(get_bw_mode(&set_bw_mode(n).value), n);
        assert_eq!(get_dclk_select(&format!("{}\n", set_dclk_select(n).value)), n);
    }
}
