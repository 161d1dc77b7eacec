use scatto::keymap::{keysym_to_key, Key, Keymap};
use scatto::session::held_keycodes;

const SHIFT: u16 = 1;
const LOCK: u16 = 2;

fn map() -> Keymap {
    // Code 8: a/A, code 9: 1/!, code 10: only one symbol, code 11: F1.
    Keymap::fetch(8, 2, vec![0x61, 0x41, 0x31, 0x21, 0xff0d, 0, 0xffbe, 0xffbe])
}

#[test]
fn symbols_stand_for_keys() {
    assert_eq!(keysym_to_key(0xff0d), Key::Return);
    assert_eq!(keysym_to_key(0xff8d), Key::Return);
    assert_eq!(keysym_to_key(0xff1b), Key::Escape);
    assert_eq!(keysym_to_key(0xff52), Key::Up);
    assert_eq!(keysym_to_key(0xff54), Key::Down);
    assert_eq!(keysym_to_key(0xffbe), Key::F1);
    assert_eq!(keysym_to_key(0x20), Key::Char(' '));
    assert_eq!(keysym_to_key(0x7e), Key::Char('~'));
    assert_eq!(keysym_to_key(0x1f), Key::Other);
    assert_eq!(keysym_to_key(0x7f), Key::Other);
    assert_eq!(keysym_to_key(0xe4), Key::Other);
    assert_eq!(keysym_to_key(0), Key::Other);
}

#[test]
fn shift_and_caps_lock_choose_the_symbol() {
    let m = map();
    assert_eq!(m.lookup(8, 0), Key::Char('a'));
    assert_eq!(m.lookup(8, SHIFT), Key::Char('A'));
    assert_eq!(m.lookup(8, LOCK), Key::Char('A'));
    assert_eq!(m.lookup(8, SHIFT | LOCK), Key::Char('a'));
    assert_eq!(m.lookup(9, 0), Key::Char('1'));
    assert_eq!(m.lookup(9, LOCK), Key::Char('1'));
    assert_eq!(m.lookup(9, SHIFT), Key::Char('!'));
    // Other modifiers make no difference.
    assert_eq!(m.lookup(8, 4 | 64), Key::Char('a'));
    assert!(m.is_letter_keycode(8));
    assert!(!m.is_letter_keycode(9));
    assert!(!m.is_letter_keycode(7));
    assert!(!m.is_letter_keycode(200));
}

#[test]
fn empty_symbols_mean_the_first_one() {
    assert_eq!(map().lookup(10, SHIFT), Key::Return);
}

#[test]
fn unknown_codes_are_other_keys() {
    assert_eq!(map().lookup(7, 0), Key::Other);
    assert_eq!(map().lookup(12, 0), Key::Other);
    assert_eq!(map().lookup(255, SHIFT), Key::Other);
}

#[test]
fn one_symbol_per_code() {
    let m = Keymap::fetch(8, 1, vec![0x61, 0x62]);
    assert_eq!(m.lookup(9, SHIFT), Key::Char('b'));
}

#[test]
fn broken_tables_are_noticed() {
    let m = Keymap::fetch(8, 2, vec![0x61, 0x41, 0x62]);
    assert!(m.can_lookup(8, SHIFT));
    assert!(m.can_lookup(9, 0));
    assert!(!m.can_lookup(9, SHIFT));
    assert!(m.can_lookup(10, SHIFT));
    for code in 0..=255 {
        for state in 0..4 {
            assert!(map().can_lookup(code, state));
        }
    }
}

#[test]
fn all_codes_are_asked_for() {
    assert_eq!(Keymap::code_count(8, 255), 248);
    assert_eq!(Keymap::code_count(8, 8), 1);
}

#[test]
fn held_keys_are_read_from_the_bitmap() {
    let mut keys = [0u8; 32];
    assert_eq!(held_keycodes(&keys), vec![]);
    keys[0] = 0b1000_0001;
    keys[5] = 0b0000_0100;
    keys[31] = 0b1000_0000;
    assert_eq!(held_keycodes(&keys), vec![0, 7, 42, 255]);
    assert_eq!(held_keycodes(&[0xff; 32]), (0..=255).collect::<Vec<u8>>());
}
