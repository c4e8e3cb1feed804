//! The sixteen-key pad: which keys are down, and the key pressed last.

use std::collections::HashMap;
use vstd::prelude::*;

verus! {

broadcast use vstd::std_specs::hash::group_hash_axioms;

/// Key code of the `1` key. A printable key's code is its character.
pub const KEYCODE_NUM1: i32 = 49;

/// Key code of the `2` key.
pub const KEYCODE_NUM2: i32 = 50;

/// Key code of the `3` key.
pub const KEYCODE_NUM3: i32 = 51;

/// Key code of the `4` key.
pub const KEYCODE_NUM4: i32 = 52;

/// Key code of the `a` key.
pub const KEYCODE_A: i32 = 97;

/// Key code of the `c` key.
pub const KEYCODE_C: i32 = 99;

/// Key code of the `d` key.
pub const KEYCODE_D: i32 = 100;

/// Key code of the `e` key.
pub const KEYCODE_E: i32 = 101;

/// Key code of the `f` key.
pub const KEYCODE_F: i32 = 102;

/// Key code of the `q` key.
pub const KEYCODE_Q: i32 = 113;

/// Key code of the `r` key.
pub const KEYCODE_R: i32 = 114;

/// Key code of the `s` key.
pub const KEYCODE_S: i32 = 115;

/// Key code of the `v` key.
pub const KEYCODE_V: i32 = 118;

/// Key code of the `w` key.
pub const KEYCODE_W: i32 = 119;

/// Key code of the `x` key.
pub const KEYCODE_X: i32 = 120;

/// Key code of the `z` key.
pub const KEYCODE_Z: i32 = 122;

/// An input event, reduced to what the key pad reads of it.
#[derive(Clone, Copy, Debug, PartialEq, Eq)]
pub enum KeyEvent {
    /// A key went down; `keycode` is its code, where the system knows one.
    KeyDown { keycode: Option<i32> },
    /// A key came up; `keycode` is its code, where the system knows one.
    KeyUp { keycode: Option<i32> },
    /// Anything else.
    Other,
}

/// The pad key that a keyboard key stands for. The left block of a QWERTY
/// keyboard is laid out as the pad is:
///
/// ```text
/// 1 2 3 4        1 2 3 C
/// q w e r   as   4 5 6 D
/// a s d f        7 8 9 E
/// z x c v        A 0 B F
/// ```
pub open spec fn hex_of_keycode(keycode: i32) -> Option<u8> {
    if keycode == KEYCODE_NUM1 {
        Some(0x1u8)
    } else if keycode == KEYCODE_NUM2 {
        Some(0x2u8)
    } else if keycode == KEYCODE_NUM3 {
        Some(0x3u8)
    } else if keycode == KEYCODE_NUM4 {
        Some(0xCu8)
    } else if keycode == KEYCODE_Q {
        Some(0x4u8)
    } else if keycode == KEYCODE_W {
        Some(0x5u8)
    } else if keycode == KEYCODE_E {
        Some(0x6u8)
    } else if keycode == KEYCODE_R {
        Some(0xDu8)
    } else if keycode == KEYCODE_A {
        Some(0x7u8)
    } else if keycode == KEYCODE_S {
        Some(0x8u8)
    } else if keycode == KEYCODE_D {
        Some(0x9u8)
    } else if keycode == KEYCODE_F {
        Some(0xEu8)
    } else if keycode == KEYCODE_Z {
        Some(0xAu8)
    } else if keycode == KEYCODE_X {
        Some(0x0u8)
    } else if keycode == KEYCODE_C {
        Some(0xBu8)
    } else if keycode == KEYCODE_V {
        Some(0xFu8)
    } else {
        None
    }
}

/// What a key pad holds: the set of keys that are down, and the key that
/// went down last and has not been taken yet.
#[verifier::ext_equal]
pub struct KeyboardView {
    pub pressed: Set<u8>,
    pub last: Option<u8>,
}

impl KeyboardView {
    /// The pad on which no key was ever touched.
    pub open spec fn idle() -> KeyboardView {
        KeyboardView { pressed: Set::empty(), last: None }
    }

    /// The pad after an event. A key that goes down is held and becomes the
    /// last one pressed; a key that comes up is released. An event with no
    /// key code, or with that of a key outside the pad, changes nothing.
    pub open spec fn on_event(self, event: KeyEvent) -> KeyboardView {
        match event {
            KeyEvent::KeyDown { keycode: Some(code) } => match hex_of_keycode(code) {
                Some(hex) => KeyboardView { pressed: self.pressed.insert(hex), last: Some(hex) },
                None => self,
            },
            KeyEvent::KeyUp { keycode: Some(code) } => match hex_of_keycode(code) {
                Some(hex) => KeyboardView { pressed: self.pressed.remove(hex), last: self.last },
                None => self,
            },
            _ => self,
        }
    }

    /// The pad after its last pressed key was taken.
    pub open spec fn taken(self) -> KeyboardView {
        KeyboardView { pressed: self.pressed, last: None }
    }
}

/// The key pad. Its model is a [`KeyboardView`].
pub struct Keyboard {
    pressed_key: HashMap<u8, u8>,
    last_pressed_key: Option<u8>,
}

impl View for Keyboard {
    type V = KeyboardView;

    closed spec fn view(&self) -> KeyboardView {
        KeyboardView {
            pressed: Set::new(
                |key: u8| self.pressed_key@.contains_key(key) && self.pressed_key@[key] == 1,
            ),
            last: self.last_pressed_key,
        }
    }
}

impl Keyboard {
    /// A pad on which no key was touched.
    pub fn new() -> (keyboard: Self)
        ensures
            keyboard@ == KeyboardView::idle(),
    {
        let keyboard = Keyboard { pressed_key: HashMap::new(), last_pressed_key: None };
        assert(keyboard@.pressed =~= Set::empty());
        keyboard
    }

    /// Maps a key code to the pad key it stands for.
    pub fn keycode_to_hex(keycode: i32) -> (hex: Option<u8>)
        ensures
            hex == hex_of_keycode(keycode),
    {
        let hex: u8 = match keycode {
            KEYCODE_NUM1 => 0x01,
            KEYCODE_NUM2 => 0x02,
            KEYCODE_NUM3 => 0x03,
            KEYCODE_NUM4 => 0x0C,
            KEYCODE_Q => 0x04,
            KEYCODE_W => 0x05,
            KEYCODE_E => 0x06,
            KEYCODE_R => 0x0D,
            KEYCODE_A => 0x07,
            KEYCODE_S => 0x08,
            KEYCODE_D => 0x09,
            KEYCODE_F => 0x0E,
            KEYCODE_Z => 0x0A,
            KEYCODE_X => 0x00,
            KEYCODE_C => 0x0B,
            KEYCODE_V => 0x0F,
            _ => 0xFF,
        };
        if hex == 0xFF {
            None
        } else {
            Some(hex)
        }
    }

    /// Takes note of an event: a pad key that goes down is held and becomes
    /// the last one pressed, one that comes up is released.
    pub fn on_keyboard_event(&mut self, event: &KeyEvent)
        ensures
            final(self)@ == old(self)@.on_event(*event),
    {
        match event {
            KeyEvent::KeyDown { keycode: Some(key) } => {
                if let Some(hex) = Keyboard::keycode_to_hex(*key) {
                    self.pressed_key.insert(hex, 1);
                    self.last_pressed_key = Some(hex);
                    assert(self@.pressed =~= old(self)@.pressed.insert(hex));
                }
            },
            KeyEvent::KeyUp { keycode: Some(key) } => {
                if let Some(hex) = Keyboard::keycode_to_hex(*key) {
                    self.pressed_key.insert(hex, 0);
                    assert(self@.pressed =~= old(self)@.pressed.remove(hex));
                }
            },
            _ => {},
        }
    }

    /// Whether `key` is down. A value that names no pad key is never down.
    pub fn is_pressed(&self, key: u8) -> (pressed: bool)
        ensures
            pressed == self@.pressed.contains(key),
    {
        let v: u8 = match self.pressed_key.get(&key) {
            Some(v) => *v,
            None => 0,
        };
        v == 1
    }

    /// Takes the key that went down last, if one did since the last call.
    pub fn last_pressed_key(&mut self) -> (key: Option<u8>)
        ensures
            key == old(self)@.last,
            final(self)@ == old(self)@.taken(),
    {
        let key = self.last_pressed_key;
        self.last_pressed_key = None;
        key
    }
}

} // verus!
