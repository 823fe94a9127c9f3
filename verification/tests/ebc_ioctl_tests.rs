use pinenote_dbus_service::ebc_ioctl::{set_offline_screen, OFFSCREEN_SIZE};

#[test]
fn offscreen_size_is_one_image() {
    assert_eq!(OFFSCREEN_SIZE, 1872 * 1404 / 2);
}

#[test]
fn whole_image_gives_payload() {
    let mut content = vec![7u8; OFFSCREEN_SIZE];
    content[0] = 1;
    let p = set_offline_screen(&content).expect("payload");
    assert!(p.info1());
    assert_eq!(p.screen_content(), &content);
}

#[test]
fn wrong_size_gives_nothing() {
    assert!(set_offline_screen(&vec![0u8; OFFSCREEN_SIZE - 1]).is_none());
    assert!(set_offline_screen(&vec![0u8; OFFSCREEN_SIZE + 1]).is_none());
    assert!(set_offline_screen(&vec![]).is_none());
}
