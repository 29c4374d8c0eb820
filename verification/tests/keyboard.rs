use chip8::keyboard::{Keyboard, Keycode};

#[test]
fn new_keypad_has_no_key_down() {
    let keyboard = Keyboard::new();
    for key in 0..16 {
        assert!(!keyboard.key_pressed(key));
    }
    assert_eq!(keyboard.next_key(), None);
}

#[test]
fn set_key_records_the_level() {
    let mut keyboard = Keyboard::new();
    keyboard.set_key(0xA, true);
    assert!(keyboard.key_pressed(0xA));
    assert!(!keyboard.key_pressed(0xB));
    keyboard.set_key(0xA, false);
    assert!(!keyboard.key_pressed(0xA));
}

#[test]
fn next_key_is_the_lowest_key_down() {
    let mut keyboard = Keyboard::new();
    keyboard.set_key(0xC, true);
    assert_eq!(keyboard.next_key(), Some(0xC));
    keyboard.set_key(0x3, true);
    assert_eq!(keyboard.next_key(), Some(0x3));
    keyboard.set_key(0x0, true);
    assert_eq!(keyboard.next_key(), Some(0x0));
    keyboard.set_key(0x0, false);
    keyboard.set_key(0x3, false);
    assert_eq!(keyboard.next_key(), Some(0xC));
    keyboard.set_key(0xF, true);
    keyboard.set_key(0xC, false);
    assert_eq!(keyboard.next_key(), Some(0xF));
}

#[test]
fn host_keys_stand_for_pad_keys() {
    let codes = [
        Keycode::Kp0,
        Keycode::Kp1,
        Keycode::Kp2,
        Keycode::Kp3,
        Keycode::Kp4,
        Keycode::Kp5,
        Keycode::Kp6,
        Keycode::Kp7,
        Keycode::Kp8,
        Keycode::Kp9,
        Keycode::A,
        Keycode::B,
        Keycode::C,
        Keycode::D,
        Keycode::E,
        Keycode::F,
    ];
    for (key, code) in codes.iter().enumerate() {
        assert_eq!(Keyboard::key_index(*code), Some(key as u8));
        let mut keyboard = Keyboard::new();
        keyboard.check_key(*code, true);
        for other in 0..16u8 {
            assert_eq!(keyboard.key_pressed(other), other as usize == key);
        }
        keyboard.check_key(*code, false);
        assert_eq!(keyboard.next_key(), None);
    }
}

#[test]
fn other_host_keys_change_nothing() {
    let mut keyboard = Keyboard::new();
    keyboard.check_key(Keycode::Kp7, true);
    keyboard.check_key(Keycode::Other, true);
    assert_eq!(Keyboard::key_index(Keycode::Other), None);
    assert_eq!(keyboard.next_key(), Some(7));
    keyboard.check_key(Keycode::Other, false);
    assert!(keyboard.key_pressed(7));
}
