//! Key codes, key symbols and the few keys that the popup knows.

use crate::x11::{lock_mask, shift_mask};
use vstd::prelude::*;

verus! {

#[derive(Debug, Clone, Copy, PartialEq, Eq, Structural)]
pub enum Key {
    Char(char),
    Return,
    Escape,
    Up,
    Down,
    F1,
    Other,
}

/// The key that a key symbol stands for.
pub open spec fn key_of(sym: u32) -> Key {
    if sym == 0xff0d || sym == 0xff8d {
        Key::Return
    } else if sym == 0xff1b {
        Key::Escape
    } else if sym == 0xff52 {
        Key::Up
    } else if sym == 0xff54 {
        Key::Down
    } else if sym == 0xffbe {
        Key::F1
    } else if 0x20 <= sym < 0x7f {
        Key::Char(sym as char)
    } else {
        Key::Other
    }
}

/// The key that a key symbol stands for.
pub fn keysym_to_key(sym: u32) -> (r: Key)
    ensures
        r == key_of(sym),
{
    match sym {
        0xff0d | 0xff8d => Key::Return,
        0xff1b => Key::Escape,
        0xff52 => Key::Up,
        0xff54 => Key::Down,
        0xffbe => Key::F1,
        _ => if 0x20 <= sym && sym < 0x7f {
            Key::Char(sym as u8 as char)
        } else {
            Key::Other
        },
    }
}

/// The keyboard mapping: for each key code from `min_keycode` on, a group of
/// `keysyms_per_keycode` symbols.
#[derive(Debug)]
pub struct Keymap {
    pub min_keycode: u8,
    pub keysyms_per_keycode: u8,
    pub table: Vec<u32>,
}

impl Keymap {
    /// Where the symbols of a key code start.
    pub open spec fn start(&self, keycode: u8) -> int {
        (keycode - self.min_keycode) * self.keysyms_per_keycode
    }

    /// Whether a key code has symbols in the table.
    pub open spec fn listed(&self, keycode: u8) -> bool {
        keycode >= self.min_keycode && self.start(keycode) < self.table@.len()
    }

    /// Whether the first symbol of a key code is a small letter.
    pub open spec fn letter(&self, keycode: u8) -> bool {
        self.listed(keycode) && 0x61 <= self.table@[self.start(keycode)] <= 0x7a
    }

    /// Which symbol of its group a key press means: the second one with Shift,
    /// or with caps lock on a letter, but not with both; the first one
    /// otherwise, and where there is only one.
    pub open spec fn column(&self, keycode: u8, state: u16) -> int {
        let shift = state & 1 != 0;
        let lock = state & 2 != 0;
        if self.keysyms_per_keycode > 1 && shift != (lock && self.letter(keycode)) {
            1
        } else {
            0
        }
    }

    /// Whether the symbol that a key press means is in the table, where its
    /// group is.
    pub open spec fn complete_at(&self, keycode: u8, state: u16) -> bool {
        self.listed(keycode) ==> self.start(keycode) + self.column(keycode, state)
            < self.table@.len()
    }

    /// The key that a key press means. An empty symbol stands for the first
    /// one of its group.
    pub open spec fn meaning(&self, keycode: u8, state: u16) -> Key {
        if !self.listed(keycode) {
            Key::Other
        } else {
            let first = self.table@[self.start(keycode)];
            let sym = self.table@[self.start(keycode) + self.column(keycode, state)];
            key_of(
                if sym == 0 {
                    first
                } else {
                    sym
                },
            )
        }
    }

    /// How many key codes to ask the server for, given the first and the last.
    pub fn code_count(min_keycode: u8, max_keycode: u8) -> (r: u8)
        requires
            min_keycode <= max_keycode,
            max_keycode - min_keycode < 255,
        ensures
            r == max_keycode - min_keycode + 1,
    {
        max_keycode - min_keycode + 1
    }

    /// The mapping that the server sent.
    pub fn fetch(min_keycode: u8, keysyms_per_keycode: u8, keysyms: Vec<u32>) -> (r: Self)
        ensures
            r == (Keymap { min_keycode, keysyms_per_keycode, table: keysyms }),
    {
        Keymap { min_keycode, keysyms_per_keycode, table: keysyms }
    }

    fn start_of(&self, keycode: u8) -> (r: Option<usize>)
        ensures
            r is Some <==> self.listed(keycode),
            r matches Some(i) ==> i == self.start(keycode),
    {
        if keycode < self.min_keycode {
            return None;
        }
        let (k, n) = (keycode - self.min_keycode, self.keysyms_per_keycode);
        assert(0 <= k * n <= 255 * 255) by (nonlinear_arith)
            requires
                0 <= k <= 255,
                0 <= n <= 255,
        ;
        let idx: usize = k as usize * n as usize;
        if idx >= self.table.len() {
            return None;
        }
        Some(idx)
    }

    fn column_of(&self, keycode: u8, state: u16) -> (r: usize)
        ensures
            r == self.column(keycode, state),
    {
        let shift = state & shift_mask() != 0;
        let lock = state & lock_mask() != 0;
        let caps = lock && self.is_letter_keycode(keycode);
        if self.keysyms_per_keycode > 1 && shift != caps {
            1
        } else {
            0
        }
    }

    /// Whether the symbol that a key press means is in the table, where its
    /// group is. It always is if the table holds whole groups.
    pub fn can_lookup(&self, keycode: u8, state: u16) -> (r: bool)
        ensures
            r == self.complete_at(keycode, state),
    {
        match self.start_of(keycode) {
            None => true,
            Some(idx) => self.column_of(keycode, state) < self.table.len() - idx,
        }
    }

    /// The key that a key press means.
    pub fn lookup(&self, keycode: u8, state: u16) -> (r: Key)
        requires
            self.complete_at(keycode, state),
        ensures
            r == self.meaning(keycode, state),
    {
        match self.start_of(keycode) {
            None => Key::Other,
            Some(idx) => {
                let col = self.column_of(keycode, state);
                assert(self.table.len() == self.table@.len());
                let sym = self.table[idx + col];
                let sym = if sym == 0 {
                    self.table[idx]
                } else {
                    sym
                };
                keysym_to_key(sym)
            },
        }
    }

    /// Whether the first symbol of a key code is a small letter.
    pub fn is_letter_keycode(&self, keycode: u8) -> (r: bool)
        ensures
            r == self.letter(keycode),
    {
        match self.start_of(keycode) {
            None => false,
            Some(idx) => {
                let s = self.table[idx];
                0x61 <= s && s <= 0x7a
            },
        }
    }
}

/// A table of whole groups has a symbol for every key press.
pub proof fn law_whole_groups_are_complete(map: Keymap, groups: int, keycode: u8, state: u16)
    requires
        groups >= 0,
        map.table@.len() == groups * map.keysyms_per_keycode,
    ensures
        map.complete_at(keycode, state),
{
    if map.listed(keycode) && map.column(keycode, state) == 1 {
        let k = keycode - map.min_keycode;
        let n = map.keysyms_per_keycode as int;
        assert(k * n + n <= groups * n) by (nonlinear_arith)
            requires
                k * n < groups * n,
                n > 1,
        ;
    }
}

/// A printable symbol stands for its character, and each of the other keys that
/// the popup knows for itself; Enter on the keypad is Enter. Everything else is
/// a key without a meaning.
pub proof fn law_symbols_stand_for_keys(sym: u32)
    ensures
        key_of(sym) matches Key::Char(c) ==> c as u32 == sym && 0x20 <= sym <= 0x7e,
        0x20 <= sym <= 0x7e ==> key_of(sym) is Char,
        key_of(sym) == Key::Return <==> sym == 0xff0d || sym == 0xff8d,
        key_of(sym) == Key::Escape <==> sym == 0xff1b,
        key_of(sym) == Key::Up <==> sym == 0xff52,
        key_of(sym) == Key::Down <==> sym == 0xff54,
        key_of(sym) == Key::F1 <==> sym == 0xffbe,
{
}

/// Whether an event's state says that Shift is down.
pub open spec fn shift_in(state: u16) -> bool {
    state % 2 == 1
}

/// Whether an event's state says that caps lock is on.
pub open spec fn lock_in(state: u16) -> bool {
    state / 2 % 2 == 1
}

/// What a key press means: the first symbol of its group, or the second one with
/// Shift. Caps lock turns that round for a small letter and makes no difference
/// for any other key. Where there is no second symbol, or it is empty, the first
/// one counts. A key code without symbols has no meaning.
pub proof fn law_presses_mean_their_symbol(map: Keymap, keycode: u8, state: u16)
    requires
        map.complete_at(keycode, state),
    ensures
        ({
            let n = map.keysyms_per_keycode as int;
            let at = (keycode - map.min_keycode) * n;
            let there = keycode >= map.min_keycode && at < map.table@.len();
            let first = map.table@[at];
            let letter = 'a' as int <= first && first <= 'z' as int;
            let second = if letter && lock_in(state) {
                !shift_in(state)
            } else {
                shift_in(state)
            };
            map.meaning(keycode, state) == if !there {
                Key::Other
            } else if n > 1 && second && map.table@[at + 1] != 0 {
                key_of(map.table@[at + 1])
            } else {
                key_of(first)
            }
        }),
{
    assert((state & 1 != 0) == (state % 2 == 1)) by (bit_vector);
    assert((state & 2 != 0) == (state / 2 % 2 == 1)) by (bit_vector);
}

/// Only Shift and caps lock matter for what a key press means.
pub proof fn law_other_modifiers_do_not_matter(map: Keymap, keycode: u8, a: u16, b: u16)
    requires
        shift_in(a) == shift_in(b),
        lock_in(a) == lock_in(b),
    ensures
        map.meaning(keycode, a) == map.meaning(keycode, b),
{
    assert((a & 1 != 0) == (a % 2 == 1)) by (bit_vector);
    assert((a & 2 != 0) == (a / 2 % 2 == 1)) by (bit_vector);
    assert((b & 1 != 0) == (b % 2 == 1)) by (bit_vector);
    assert((b & 2 != 0) == (b / 2 % 2 == 1)) by (bit_vector);
}

/// All key codes from the first to the last are asked for.
pub proof fn law_all_codes_are_asked_for(min_keycode: u8, max_keycode: u8, n: u8)
    requires
        min_keycode <= max_keycode,
        max_keycode - min_keycode < 255,
        call_ensures(Keymap::code_count, (min_keycode, max_keycode), n),
    ensures
        min_keycode + n - 1 == max_keycode,
{
}

/// A key code is that of a letter just if its first symbol is a small letter.
pub proof fn law_letters_have_small_letters(map: &Keymap, keycode: u8, r: bool)
    requires
        call_ensures(Keymap::is_letter_keycode, (map, keycode), r),
    ensures
        ({
            let at = (keycode - map.min_keycode) * map.keysyms_per_keycode;
            r <==> keycode >= map.min_keycode && at < map.table@.len() && 'a' as int
                <= map.table@[at] && map.table@[at] <= 'z' as int
        }),
{
}

} // verus!
