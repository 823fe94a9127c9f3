use pinenote_dbus_service::misc::{
    cover_wakeup_file, disable_travel_mode, enable_travel_mode, get_travel_mode,
    request_quality_or_performance_mode,
};
use pinenote_dbus_service::sys_handler::read_file;

#[test]
fn travel_mode_writes() {
    let e = enable_travel_mode();
    assert_eq!(e.path, "/sys/devices/platform/gpio-keys/power/wakeup");
    assert_eq!(e.value, "disabled");
    let d = disable_travel_mode();
    assert_eq!(d.path, cover_wakeup_file());
    assert_eq!(d.value, "enabled");
}

#[test]
fn travel_mode_reading() {
    assert_eq!(get_travel_mode("disabled"), 1);
    assert_eq!(get_travel_mode("enabled"), 0);
    assert_eq!(get_travel_mode(""), 0);
    assert_eq!(get_travel_mode("disabled "), 0);
}

#[test]
fn travel_mode_reads_back() {
    assert_eq!(get_travel_mode(&read_file(&format!("{}\n", enable_travel_mode().value))), 1);
    assert_eq!(get_travel_mode(&read_file(&format!("{}\n", disable_travel_mode().value))), 0);
}

#[test]
fn quality_or_performance_requests() {
    assert_eq!(request_quality_or_performance_mode(0), Some(0));
    assert_eq!(request_quality_or_performance_mode(1), Some(1));
    assert_eq!(request_quality_or_performance_mode(2), None);
    assert_eq!(request_quality_or_performance_mode(255), None);
}
