use chip_oxide::keyboard::{HostKey, Keyboard};

#[test]
fn maps_host_keys_to_keypad() {
    let mut kb = Keyboard::new();
    assert_eq!(kb.get_pressed(), None);
    kb.set_keys(&[HostKey::X, HostKey::V, HostKey::Num4]);
    assert!(kb.get_key(0x0));
    assert!(kb.get_key(0xC));
    assert!(kb.get_key(0xF));
    assert!(!kb.get_key(0x1));
    assert_eq!(kb.get_pressed(), Some(0));
    kb.set_keys(&[HostKey::F, HostKey::Q]);
    assert!(!kb.get_key(0x0));
    assert_eq!(kb.get_pressed(), Some(4));
    kb.set_keys(&[]);
    assert_eq!(kb.key_list, [false; 16]);
}
