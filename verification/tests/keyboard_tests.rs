use chip8::keyboard::{KeyEvent, Keyboard};

fn down(keycode: i32) -> KeyEvent {
    KeyEvent::KeyDown { keycode: Some(keycode) }
}

fn up(keycode: i32) -> KeyEvent {
    KeyEvent::KeyUp { keycode: Some(keycode) }
}

#[test]
fn every_pad_key_has_its_keyboard_key() {
    let table: [(char, u8); 16] = [
        ('1', 0x1), ('2', 0x2), ('3', 0x3), ('4', 0xC),
        ('q', 0x4), ('w', 0x5), ('e', 0x6), ('r', 0xD),
        ('a', 0x7), ('s', 0x8), ('d', 0x9), ('f', 0xE),
        ('z', 0xA), ('x', 0x0), ('c', 0xB), ('v', 0xF),
    ];
    for (key, hex) in table {
        assert_eq!(Keyboard::keycode_to_hex(key as i32), Some(hex));
    }
}

#[test]
fn keys_outside_the_pad_map_to_nothing() {
    assert_eq!(Keyboard::keycode_to_hex('5' as i32), None);
    assert_eq!(Keyboard::keycode_to_hex('0' as i32), None);
    assert_eq!(Keyboard::keycode_to_hex('b' as i32), None);
    assert_eq!(Keyboard::keycode_to_hex(0), None);
    assert_eq!(Keyboard::keycode_to_hex(-1), None);
    assert_eq!(Keyboard::keycode_to_hex(0xFF), None);
    assert_eq!(Keyboard::keycode_to_hex(i32::MAX), None);
}

#[test]
fn exactly_sixteen_key_codes_are_pad_keys() {
    let mut found: usize = 0;
    for keycode in -1000..1000 {
        if Keyboard::keycode_to_hex(keycode).is_some() {
            found += 1;
        }
    }
    assert_eq!(found, 16);
}

#[test]
fn a_new_pad_has_no_key_down() {
    let mut keyboard = Keyboard::new();
    for key in 0..=255u8 {
        assert!(!keyboard.is_pressed(key));
    }
    assert_eq!(keyboard.last_pressed_key(), None);
}

#[test]
fn key_down_holds_the_key_until_key_up() {
    let mut keyboard = Keyboard::new();
    keyboard.on_keyboard_event(&down('a' as i32));
    assert!(keyboard.is_pressed(0x7));
    assert!(!keyboard.is_pressed(0x8));
    keyboard.on_keyboard_event(&down('s' as i32));
    assert!(keyboard.is_pressed(0x7));
    assert!(keyboard.is_pressed(0x8));
    keyboard.on_keyboard_event(&up('a' as i32));
    assert!(!keyboard.is_pressed(0x7));
    assert!(keyboard.is_pressed(0x8));
}

#[test]
fn last_pressed_key_is_taken_once() {
    let mut keyboard = Keyboard::new();
    keyboard.on_keyboard_event(&down('q' as i32));
    keyboard.on_keyboard_event(&down('v' as i32));
    assert_eq!(keyboard.last_pressed_key(), Some(0xF));
    assert_eq!(keyboard.last_pressed_key(), None);
    assert!(keyboard.is_pressed(0x4));
    assert!(keyboard.is_pressed(0xF));
}

#[test]
fn key_up_keeps_the_last_pressed_key() {
    let mut keyboard = Keyboard::new();
    keyboard.on_keyboard_event(&down('x' as i32));
    keyboard.on_keyboard_event(&up('x' as i32));
    assert!(!keyboard.is_pressed(0x0));
    assert_eq!(keyboard.last_pressed_key(), Some(0x0));
}

#[test]
fn events_without_a_pad_key_change_nothing() {
    let mut keyboard = Keyboard::new();
    keyboard.on_keyboard_event(&down('a' as i32));
    keyboard.on_keyboard_event(&down('p' as i32));
    keyboard.on_keyboard_event(&up('p' as i32));
    keyboard.on_keyboard_event(&KeyEvent::KeyDown { keycode: None });
    keyboard.on_keyboard_event(&KeyEvent::KeyUp { keycode: None });
    keyboard.on_keyboard_event(&KeyEvent::Other);
    assert!(keyboard.is_pressed(0x7));
    let mut down_keys: usize = 0;
    for key in 0..=255u8 {
        if keyboard.is_pressed(key) {
            down_keys += 1;
        }
    }
    assert_eq!(down_keys, 1);
    assert_eq!(keyboard.last_pressed_key(), Some(0x7));
}

#[test]
fn a_value_that_names_no_pad_key_is_never_down() {
    let mut keyboard = Keyboard::new();
    for key in "1234qwerasdfzxcv".chars() {
        keyboard.on_keyboard_event(&down(key as i32));
    }
    for key in 0..16u8 {
        assert!(keyboard.is_pressed(key));
    }
    for key in 16..=255u8 {
        assert!(!keyboard.is_pressed(key));
    }
}
