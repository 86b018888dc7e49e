use chip8::input::{Button, Chip8Controller, Controller};

const ALL: [Button; 16] = [
    Button::B0,
    Button::B1,
    Button::B2,
    Button::B3,
    Button::B4,
    Button::B5,
    Button::B6,
    Button::B7,
    Button::B8,
    Button::B9,
    Button::BA,
    Button::BB,
    Button::BC,
    Button::BD,
    Button::BE,
    Button::BF,
];

#[test]
fn buttons_have_values() {
    for (n, b) in ALL.iter().enumerate() {
        assert_eq!(b.code(), n as u8);
        assert_eq!(Button::from_u8(n as u8), *b);
    }
}

#[test]
fn keyboard_symbols_map_to_buttons() {
    let symbols = [
        "0", "1", "2", "3", "4", "5", "6", "7", "8", "9", "A", "B", "C", "D", "E", "F",
    ];
    for (n, s) in symbols.iter().enumerate() {
        assert_eq!(Button::to_button(s), Some(ALL[n]));
    }
}

#[test]
fn other_symbols_map_to_nothing() {
    assert_eq!(Button::to_button(""), None);
    assert_eq!(Button::to_button("a"), None);
    assert_eq!(Button::to_button("f"), None);
    assert_eq!(Button::to_button("G"), None);
    assert_eq!(Button::to_button("AB"), None);
    assert_eq!(Button::to_button("10"), None);
    assert_eq!(Button::to_button(" "), None);
    assert_eq!(Button::to_button("é"), None);
}

#[test]
fn new_keypad_is_idle() {
    let mut c = Controller::new();
    for b in ALL {
        assert!(!c.is_pressed(b));
    }
    assert!(c.pressed_set().is_empty());
    assert_eq!(c.take_last_released(), None);
    let mut d = Controller::default();
    assert!(d.pressed_set().is_empty());
    assert_eq!(d.take_last_released(), None);
}

#[test]
fn press_holds_a_key() {
    let mut c = Controller::new();
    c.on_press(Button::B5);
    assert!(c.is_pressed(Button::B5));
    assert!(!c.is_pressed(Button::B6));
    assert_eq!(c.take_last_released(), None);
}

#[test]
fn press_twice_holds_once() {
    let mut c = Controller::new();
    c.on_press(Button::B5);
    c.on_press(Button::B5);
    assert_eq!(c.pressing, vec![Button::B5]);
    assert_eq!(c.pressed_set(), vec![Button::B5]);
}

#[test]
fn release_lets_go_and_remembers() {
    let mut c = Controller::new();
    c.on_press(Button::B5);
    c.on_press(Button::BA);
    c.on_release(Button::B5);
    assert!(!c.is_pressed(Button::B5));
    assert!(c.is_pressed(Button::BA));
    assert_eq!(c.last_released, Some(Button::B5));
}

#[test]
fn release_removes_every_entry() {
    let mut c = Controller { pressing: vec![Button::B1, Button::B2, Button::B1], last_released: None };
    c.on_release(Button::B1);
    assert!(!c.is_pressed(Button::B1));
    assert_eq!(c.pressing, vec![Button::B2]);
}

#[test]
fn release_of_a_key_that_is_not_held_is_remembered() {
    let mut c = Controller::new();
    c.on_release(Button::BF);
    assert!(c.pressed_set().is_empty());
    assert_eq!(c.take_last_released(), Some(Button::BF));
}

#[test]
fn take_empties_the_slot() {
    let mut c = Controller::new();
    c.on_press(Button::B3);
    c.on_release(Button::B3);
    c.on_release(Button::B4);
    assert_eq!(c.take_last_released(), Some(Button::B4));
    assert_eq!(c.take_last_released(), None);
}

#[test]
fn pressed_set_is_ordered_and_without_repeats() {
    let c = Controller {
        pressing: vec![Button::BF, Button::B0, Button::B7, Button::B0],
        last_released: None,
    };
    assert_eq!(c.pressed_set(), vec![Button::B0, Button::B7, Button::BF]);
}

#[test]
fn interpreter_side_sees_the_keys() {
    let mut c = Controller::new();
    c.on_press(Button::BC);
    c.on_press(Button::B1);
    let view = Chip8Controller(c);
    assert_eq!(view.keys_to_buttons(), vec![Button::BC, Button::B1]);
    assert!(view.holds(0x1));
    assert!(view.holds(0xC));
    assert!(!view.holds(0x2));
}

#[test]
fn interpreter_side_sees_the_keys_in_the_order_held() {
    let mut c = Controller::new();
    c.on_press(Button::B5);
    c.on_press(Button::B1);
    c.on_press(Button::B5);
    c.on_press(Button::BA);
    let view = Chip8Controller(c);
    assert_eq!(view.keys_to_buttons(), vec![Button::B5, Button::B1, Button::BA]);
    assert_eq!(view.0.pressing, vec![Button::B5, Button::B1, Button::BA]);
    assert_eq!(view.0.pressed_set(), vec![Button::B1, Button::B5, Button::BA]);
}

#[test]
fn press_appends_a_new_key_and_keeps_a_held_one() {
    let mut c = Controller::new();
    c.on_press(Button::B9);
    c.on_press(Button::B2);
    assert_eq!(c.pressing, vec![Button::B9, Button::B2]);
    c.on_press(Button::B9);
    assert_eq!(c.pressing, vec![Button::B9, Button::B2]);
    assert_eq!(c.last_released, None);
    c.on_release(Button::BF);
    c.on_press(Button::B0);
    assert_eq!(c.pressing, vec![Button::B9, Button::B2, Button::B0]);
    assert_eq!(c.last_released, Some(Button::BF));
}

#[test]
fn release_keeps_the_order_of_the_others() {
    let mut c = Controller::new();
    for b in [Button::B7, Button::B3, Button::BE, Button::B0] {
        c.on_press(b);
    }
    c.on_release(Button::B3);
    assert_eq!(c.pressing, vec![Button::B7, Button::BE, Button::B0]);
    c.on_release(Button::B3);
    assert_eq!(c.pressing, vec![Button::B7, Button::BE, Button::B0]);
    c.on_release(Button::B0);
    assert_eq!(c.pressing, vec![Button::B7, Button::BE]);
    c.on_release(Button::B7);
    c.on_release(Button::BE);
    assert!(c.pressing.is_empty());
    assert_eq!(c.last_released, Some(Button::BE));
}

#[test]
fn no_key_stands_twice_after_presses_and_releases() {
    let mut c = Controller::new();
    let keys = [Button::B1, Button::B2, Button::B1, Button::B3, Button::B2, Button::B1];
    for (n, b) in keys.iter().enumerate() {
        c.on_press(*b);
        if n % 3 == 2 {
            c.on_release(Button::B2);
        }
        for i in 0..c.pressing.len() {
            for j in 0..i {
                assert_ne!(c.pressing[i], c.pressing[j]);
            }
        }
    }
    assert_eq!(c.pressing, vec![Button::B1, Button::B3]);
}

#[test]
fn no_key_has_a_value_above_fifteen() {
    let mut c = Controller::new();
    for b in ALL {
        c.on_press(b);
    }
    let view = Chip8Controller(c);
    assert!(view.holds(15));
    assert!(!view.holds(16));
    assert!(!view.holds(31));
    assert!(!view.holds(255));
}
