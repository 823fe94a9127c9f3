use pinenote_dbus_service::sys_handler::{
    set_default_waveform, set_split_area_limit, write_ebc_energy_control,
};
use pinenote_dbus_service::writing_mode::{EbcSettings, EbcWritingState};

fn settings(waveform: u8, split_area_limit: u32, energy: &str) -> EbcSettings {
    EbcSettings { waveform, split_area_limit, energy_control: energy.to_string() }
}

#[test]
fn starts_off() {
    assert!(!EbcWritingState::new().is_writing_mode_on());
}

#[test]
fn enter_sets_up_writing() {
    let mut s = EbcWritingState::new();
    let w = s.enter_writing_mode(&settings(4, 64, "auto"));
    assert!(s.is_writing_mode_on());
    assert_eq!(w, vec![set_default_waveform(1), set_split_area_limit(8), write_ebc_energy_control("on").unwrap()]);
}

#[test]
fn quit_undoes_enter() {
    let mut s = EbcWritingState::new();
    s.enter_writing_mode(&settings(4, 64, "auto"));
    let w = s.quit_writing_mode();
    assert!(!s.is_writing_mode_on());
    assert_eq!(w, vec![set_default_waveform(4), set_split_area_limit(64), write_ebc_energy_control("auto").unwrap()]);

    let mut s = EbcWritingState::new();
    s.enter_writing_mode(&settings(2, 0, "on"));
    let w = s.quit_writing_mode();
    assert_eq!(w, vec![set_default_waveform(2), set_split_area_limit(0), write_ebc_energy_control("on").unwrap()]);
}

#[test]
fn unknown_power_control_restores_auto() {
    let mut s = EbcWritingState::new();
    s.enter_writing_mode(&settings(1, 1, "on "));
    assert_eq!(s.quit_writing_mode()[2], write_ebc_energy_control("auto").unwrap());
}

#[test]
fn enter_twice_keeps_first_settings() {
    let mut s = EbcWritingState::new();
    s.enter_writing_mode(&settings(3, 20, "auto"));
    let again = s.enter_writing_mode(&settings(1, 8, "on"));
    assert!(again.is_empty());
    assert!(s.is_writing_mode_on());
    let w = s.quit_writing_mode();
    assert_eq!(w, vec![set_default_waveform(3), set_split_area_limit(20), write_ebc_energy_control("auto").unwrap()]);
}

#[test]
fn quit_when_off_does_nothing() {
    let mut s = EbcWritingState::new();
    assert!(s.quit_writing_mode().is_empty());
    assert!(!s.is_writing_mode_on());
    s.enter_writing_mode(&settings(3, 20, "auto"));
    s.quit_writing_mode();
    assert!(s.quit_writing_mode().is_empty());
}
