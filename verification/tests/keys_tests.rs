use window_list_overlay::keys::{
    eviocgbit_key, eviocgkey, has_left_meta, ior, is_event_device, is_super_pressed, reports_super_key, KEY_BYTES,
    KEY_LEFTMETA,
};

#[test]
fn ioctl_request_numbers() {
    assert_eq!(eviocgkey(), 0x8060_4518);
    assert_eq!(eviocgbit_key(), 0x8060_4521);
    assert_eq!(ior(0, 0), 0x8000_4500);
    assert_eq!(ior(0x21, 96), (2u64 << 30) | (96 << 16) | ((b'E' as u64) << 8) | 0x21);
}

fn bitmap_with(code: usize) -> Vec<u8> {
    let mut b = vec![0u8; KEY_BYTES];
    b[code / 8] |= 1 << (code % 8);
    b
}

#[test]
fn left_meta_bit() {
    assert!(has_left_meta(&bitmap_with(KEY_LEFTMETA)));
    assert!(!has_left_meta(&bitmap_with(126)));
    assert!(!has_left_meta(&bitmap_with(124)));
    assert!(!has_left_meta(&vec![0u8; KEY_BYTES]));
    let mut all = vec![0xffu8; KEY_BYTES];
    all[15] = !(1 << 5);
    assert!(!has_left_meta(&all));
}

#[test]
fn super_pressed_on_any_keyboard() {
    let states = vec![(-1, bitmap_with(KEY_LEFTMETA)), (0, vec![0u8; KEY_BYTES]), (0, bitmap_with(KEY_LEFTMETA))];
    assert!(is_super_pressed(&states));
    let states = vec![(-1, bitmap_with(KEY_LEFTMETA)), (3, bitmap_with(30))];
    assert!(!is_super_pressed(&states));
    assert!(reports_super_key(0, &bitmap_with(KEY_LEFTMETA)));
    assert!(!reports_super_key(-1, &bitmap_with(KEY_LEFTMETA)));
    assert!(!is_super_pressed(&Vec::new()));
}

#[test]
fn event_device_names() {
    assert!(is_event_device("event0"));
    assert!(is_event_device("event"));
    assert!(!is_event_device("mouse0"));
    assert!(!is_event_device("even"));
    assert!(!is_event_device("by-id"));
}
