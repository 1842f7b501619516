use chip8::{Chip8Key, KeyMapping};

#[test]
fn default_table_binds_the_keypad() {
    let map = KeyMapping::new();
    assert_eq!(map.get_key(Chip8Key::K1), Some(0));
    assert_eq!(map.get_key(Chip8Key::K2), Some(1));
    assert_eq!(map.get_key(Chip8Key::KC), Some(3));
    assert_eq!(map.get_key(Chip8Key::K0), Some(13));
    assert_eq!(map.get_key(Chip8Key::KF), Some(15));
    assert_eq!(map.get_chip8_key(0), Some(Chip8Key::K1));
    assert_eq!(map.get_chip8_key(13), Some(Chip8Key::K0));
    assert_eq!(map.get_chip8_key(99), None);
}

#[test]
fn remap_rebinds_a_logical_key() {
    let mut map = KeyMapping::new();
    map.remap(Chip8Key::K5, 99);
    assert_eq!(map.get_key(Chip8Key::K5), Some(99));
    assert_eq!(map.get_chip8_key(99), Some(Chip8Key::K5));
    // The old host key of K5 is free now.
    assert_eq!(map.get_chip8_key(5), None);
}

#[test]
fn remap_steals_a_host_key_from_its_old_binding() {
    let mut map = KeyMapping::new();
    map.remap(Chip8Key::K5, 99);
    map.remap(Chip8Key::K6, 99);
    assert_eq!(map.get_key(Chip8Key::K6), Some(99));
    assert_eq!(map.get_chip8_key(99), Some(Chip8Key::K6));
    // K5 lost its binding; the table stays one-to-one.
    assert_eq!(map.get_key(Chip8Key::K5), None);
}

#[test]
fn reset_restores_the_default_table() {
    let mut map = KeyMapping::new();
    map.remap(Chip8Key::K5, 99);
    map.reset_keymap();
    assert_eq!(map.get_key(Chip8Key::K5), Some(5));
    assert_eq!(map.get_chip8_key(99), None);
}

#[test]
fn key_indices_round_trip() {
    for value in 0..16u8 {
        let key = Chip8Key::from_index(value).unwrap();
        assert_eq!(key.to_index(), value);
    }
    assert!(Chip8Key::from_index(16).is_none());
    assert!(Chip8Key::from_index(0xFF).is_none());
}

#[test]
fn key_labels() {
    assert_eq!(Chip8Key::K0.label(), "0");
    assert_eq!(Chip8Key::K9.label(), "9");
    assert_eq!(Chip8Key::KA.label(), "A");
    assert_eq!(Chip8Key::KF.label(), "F");
}
