//! PS/2 keyboard: scancode set 1 decoding with the shift state.
//!
//! Reading the data port is left to the caller; this module decides what a
//! scancode means.
use vstd::prelude::*;

verus! {

/// The character a make code produces (US layout), if any. Backspace, arrow up
/// and arrow down produce the control characters 0x08, 0x01 and 0x02.
pub open spec fn key_char(scancode: u8, shift: bool) -> Option<char> {
    match scancode {
        0x02u8 => Some(if shift { '!' } else { '1' }),
        0x03u8 => Some(if shift { '@' } else { '2' }),
        0x04u8 => Some(if shift { '#' } else { '3' }),
        0x05u8 => Some(if shift { '$' } else { '4' }),
        0x06u8 => Some(if shift { '%' } else { '5' }),
        0x07u8 => Some(if shift { '^' } else { '6' }),
        0x08u8 => Some(if shift { '&' } else { '7' }),
        0x09u8 => Some(if shift { '*' } else { '8' }),
        0x0Au8 => Some(if shift { '(' } else { '9' }),
        0x0Bu8 => Some(if shift { ')' } else { '0' }),
        0x0Cu8 => Some(if shift { '_' } else { '-' }),
        0x0Du8 => Some(if shift { '+' } else { '=' }),
        0x10u8 => Some(if shift { 'Q' } else { 'q' }),
        0x11u8 => Some(if shift { 'W' } else { 'w' }),
        0x12u8 => Some(if shift { 'E' } else { 'e' }),
        0x13u8 => Some(if shift { 'R' } else { 'r' }),
        0x14u8 => Some(if shift { 'T' } else { 't' }),
        0x15u8 => Some(if shift { 'Y' } else { 'y' }),
        0x16u8 => Some(if shift { 'U' } else { 'u' }),
        0x17u8 => Some(if shift { 'I' } else { 'i' }),
        0x18u8 => Some(if shift { 'O' } else { 'o' }),
        0x19u8 => Some(if shift { 'P' } else { 'p' }),
        0x1Au8 => Some(if shift { '{' } else { '[' }),
        0x1Bu8 => Some(if shift { '}' } else { ']' }),
        0x1Eu8 => Some(if shift { 'A' } else { 'a' }),
        0x1Fu8 => Some(if shift { 'S' } else { 's' }),
        0x20u8 => Some(if shift { 'D' } else { 'd' }),
        0x21u8 => Some(if shift { 'F' } else { 'f' }),
        0x22u8 => Some(if shift { 'G' } else { 'g' }),
        0x23u8 => Some(if shift { 'H' } else { 'h' }),
        0x24u8 => Some(if shift { 'J' } else { 'j' }),
        0x25u8 => Some(if shift { 'K' } else { 'k' }),
        0x26u8 => Some(if shift { 'L' } else { 'l' }),
        0x27u8 => Some(if shift { ':' } else { ';' }),
        0x28u8 => Some(if shift { '"' } else { '\'' }),
        0x2Cu8 => Some(if shift { 'Z' } else { 'z' }),
        0x2Du8 => Some(if shift { 'X' } else { 'x' }),
        0x2Eu8 => Some(if shift { 'C' } else { 'c' }),
        0x2Fu8 => Some(if shift { 'V' } else { 'v' }),
        0x30u8 => Some(if shift { 'B' } else { 'b' }),
        0x31u8 => Some(if shift { 'N' } else { 'n' }),
        0x32u8 => Some(if shift { 'M' } else { 'm' }),
        0x33u8 => Some(if shift { '<' } else { ',' }),
        0x34u8 => Some(if shift { '>' } else { '.' }),
        0x35u8 => Some(if shift { '?' } else { '/' }),
        0x29u8 => Some(if shift { '~' } else { '`' }),
        0x2Bu8 => Some(if shift { '|' } else { '\\' }),
        0x39u8 => Some(' '),
        0x1Cu8 => Some('\n'),
        0x0Eu8 => Some('\x08'),
        0x48u8 => Some('\x01'),
        0x50u8 => Some('\x02'),
        _ => None,
    }
}

/// Law: the keys follow the US layout row by row. Scancodes 0x02 to 0x0B type the
/// digits 1 to 9 and 0 (with shift, the symbols above them), 0x10 to 0x19 the
/// letters "qwertyuiop", 0x1E to 0x26 "asdfghjkl" and 0x2C to 0x32 "zxcvbnm"
/// (with shift, the same letters in upper case).
pub proof fn lemma_us_layout_rows(i: int)
    ensures
        0 <= i < 10 ==> key_char((0x02 + i) as u8, false) == Some("1234567890"@[i]) && key_char((0x02 + i) as u8, true)
            == Some("!@#$%^&*()"@[i]),
        0 <= i < 10 ==> key_char((0x10 + i) as u8, false) == Some("qwertyuiop"@[i]) && key_char((0x10 + i) as u8, true)
            == Some("QWERTYUIOP"@[i]),
        0 <= i < 9 ==> key_char((0x1E + i) as u8, false) == Some("asdfghjkl"@[i]) && key_char((0x1E + i) as u8, true)
            == Some("ASDFGHJKL"@[i]),
        0 <= i < 7 ==> key_char((0x2C + i) as u8, false) == Some("zxcvbnm"@[i]) && key_char((0x2C + i) as u8, true)
            == Some("ZXCVBNM"@[i]),
{
    reveal_strlit("1234567890");
    reveal_strlit("!@#$%^&*()");
    reveal_strlit("qwertyuiop");
    reveal_strlit("QWERTYUIOP");
    reveal_strlit("asdfghjkl");
    reveal_strlit("ASDFGHJKL");
    reveal_strlit("zxcvbnm");
    reveal_strlit("ZXCVBNM");
    if i == 0 {
    } else if i == 1 {
    } else if i == 2 {
    } else if i == 3 {
    } else if i == 4 {
    } else if i == 5 {
    } else if i == 6 {
    } else if i == 7 {
    } else if i == 8 {
    } else if i == 9 {
    }
}

/// Law: every lowercase letter is typed by some key without shift, and with shift
/// that key types the same letter in upper case.
pub proof fn lemma_every_letter_has_a_key(c: char)
    requires
        'a' <= c <= 'z',
    ensures
        exists|s: u8| #[trigger] key_char(s, false) == Some(c) && key_char(s, true) == Some(((c as u32) - 32) as char),
{
    if c == 'a' {
        assert(key_char(0x1Eu8, false) == Some('a'));
    } else if c == 'b' {
        assert(key_char(0x30u8, false) == Some('b'));
    } else if c == 'c' {
        assert(key_char(0x2Eu8, false) == Some('c'));
    } else if c == 'd' {
        assert(key_char(0x20u8, false) == Some('d'));
    } else if c == 'e' {
        assert(key_char(0x12u8, false) == Some('e'));
    } else if c == 'f' {
        assert(key_char(0x21u8, false) == Some('f'));
    } else if c == 'g' {
        assert(key_char(0x22u8, false) == Some('g'));
    } else if c == 'h' {
        assert(key_char(0x23u8, false) == Some('h'));
    } else if c == 'i' {
        assert(key_char(0x17u8, false) == Some('i'));
    } else if c == 'j' {
        assert(key_char(0x24u8, false) == Some('j'));
    } else if c == 'k' {
        assert(key_char(0x25u8, false) == Some('k'));
    } else if c == 'l' {
        assert(key_char(0x26u8, false) == Some('l'));
    } else if c == 'm' {
        assert(key_char(0x32u8, false) == Some('m'));
    } else if c == 'n' {
        assert(key_char(0x31u8, false) == Some('n'));
    } else if c == 'o' {
        assert(key_char(0x18u8, false) == Some('o'));
    } else if c == 'p' {
        assert(key_char(0x19u8, false) == Some('p'));
    } else if c == 'q' {
        assert(key_char(0x10u8, false) == Some('q'));
    } else if c == 'r' {
        assert(key_char(0x13u8, false) == Some('r'));
    } else if c == 's' {
        assert(key_char(0x1Fu8, false) == Some('s'));
    } else if c == 't' {
        assert(key_char(0x14u8, false) == Some('t'));
    } else if c == 'u' {
        assert(key_char(0x16u8, false) == Some('u'));
    } else if c == 'v' {
        assert(key_char(0x2Fu8, false) == Some('v'));
    } else if c == 'w' {
        assert(key_char(0x11u8, false) == Some('w'));
    } else if c == 'x' {
        assert(key_char(0x2Du8, false) == Some('x'));
    } else if c == 'y' {
        assert(key_char(0x15u8, false) == Some('y'));
    } else if c == 'z' {
        assert(key_char(0x2Cu8, false) == Some('z'));
    } else {
        assert(false);
    }
}

/// Law: distinct keys type distinct characters under the same shift state, so no
/// character is typed by two keys and none is lost.
pub proof fn lemma_keys_type_distinct_chars(s1: u8, s2: u8, shift: bool)
    requires
        key_char(s1, shift) is Some,
        key_char(s1, shift) == key_char(s2, shift),
    ensures
        s1 == s2,
{
}

/// What a key event asks of the shell.
#[derive(Debug, Clone, Copy, PartialEq, Eq, Structural)]
pub enum KeyAction {
    /// Nothing to do (shift change, key release or unmapped key).
    Ignore,
    /// Erase the previous character.
    Backspace,
    /// Recall the previous history entry.
    ArrowUp,
    /// Recall the next history entry.
    ArrowDown,
    /// Echo and insert a character.
    Char(char),
}

/// The action of a decoded character.
pub open spec fn action_of(c: Option<char>) -> KeyAction {
    match c {
        None => KeyAction::Ignore,
        Some(ch) => if ch == '\x08' {
            KeyAction::Backspace
        } else if ch == '\x01' {
            KeyAction::ArrowUp
        } else if ch == '\x02' {
            KeyAction::ArrowDown
        } else {
            KeyAction::Char(ch)
        },
    }
}

/// Decode a make code (US layout).
pub fn scancode_to_char(scancode: u8, shift: bool) -> (r: Option<char>)
    ensures
        r == key_char(scancode, shift),
{
    match scancode {
        0x02u8 => Some(if shift { '!' } else { '1' }),
        0x03u8 => Some(if shift { '@' } else { '2' }),
        0x04u8 => Some(if shift { '#' } else { '3' }),
        0x05u8 => Some(if shift { '$' } else { '4' }),
        0x06u8 => Some(if shift { '%' } else { '5' }),
        0x07u8 => Some(if shift { '^' } else { '6' }),
        0x08u8 => Some(if shift { '&' } else { '7' }),
        0x09u8 => Some(if shift { '*' } else { '8' }),
        0x0Au8 => Some(if shift { '(' } else { '9' }),
        0x0Bu8 => Some(if shift { ')' } else { '0' }),
        0x0Cu8 => Some(if shift { '_' } else { '-' }),
        0x0Du8 => Some(if shift { '+' } else { '=' }),
        0x10u8 => Some(if shift { 'Q' } else { 'q' }),
        0x11u8 => Some(if shift { 'W' } else { 'w' }),
        0x12u8 => Some(if shift { 'E' } else { 'e' }),
        0x13u8 => Some(if shift { 'R' } else { 'r' }),
        0x14u8 => Some(if shift { 'T' } else { 't' }),
        0x15u8 => Some(if shift { 'Y' } else { 'y' }),
        0x16u8 => Some(if shift { 'U' } else { 'u' }),
        0x17u8 => Some(if shift { 'I' } else { 'i' }),
        0x18u8 => Some(if shift { 'O' } else { 'o' }),
        0x19u8 => Some(if shift { 'P' } else { 'p' }),
        0x1Au8 => Some(if shift { '{' } else { '[' }),
        0x1Bu8 => Some(if shift { '}' } else { ']' }),
        0x1Eu8 => Some(if shift { 'A' } else { 'a' }),
        0x1Fu8 => Some(if shift { 'S' } else { 's' }),
        0x20u8 => Some(if shift { 'D' } else { 'd' }),
        0x21u8 => Some(if shift { 'F' } else { 'f' }),
        0x22u8 => Some(if shift { 'G' } else { 'g' }),
        0x23u8 => Some(if shift { 'H' } else { 'h' }),
        0x24u8 => Some(if shift { 'J' } else { 'j' }),
        0x25u8 => Some(if shift { 'K' } else { 'k' }),
        0x26u8 => Some(if shift { 'L' } else { 'l' }),
        0x27u8 => Some(if shift { ':' } else { ';' }),
        0x28u8 => Some(if shift { '"' } else { '\'' }),
        0x2Cu8 => Some(if shift { 'Z' } else { 'z' }),
        0x2Du8 => Some(if shift { 'X' } else { 'x' }),
        0x2Eu8 => Some(if shift { 'C' } else { 'c' }),
        0x2Fu8 => Some(if shift { 'V' } else { 'v' }),
        0x30u8 => Some(if shift { 'B' } else { 'b' }),
        0x31u8 => Some(if shift { 'N' } else { 'n' }),
        0x32u8 => Some(if shift { 'M' } else { 'm' }),
        0x33u8 => Some(if shift { '<' } else { ',' }),
        0x34u8 => Some(if shift { '>' } else { '.' }),
        0x35u8 => Some(if shift { '?' } else { '/' }),
        0x29u8 => Some(if shift { '~' } else { '`' }),
        0x2Bu8 => Some(if shift { '|' } else { '\\' }),
        0x39u8 => Some(' '),
        0x1Cu8 => Some('\n'),
        0x0Eu8 => Some('\x08'),
        0x48u8 => Some('\x01'),
        0x50u8 => Some('\x02'),
        _ => None,
    }
}

/// The keyboard state: whether a shift key is held.
pub struct Keyboard {
    shift_pressed: bool,
}

impl Keyboard {
    pub closed spec fn spec_shift(&self) -> bool {
        self.shift_pressed
    }

    /// No shift key held.
    pub fn new() -> (r: Self)
        ensures
            !r.spec_shift(),
    {
        Keyboard { shift_pressed: false }
    }

    /// Whether a shift key is held.
    pub fn shift_pressed(&self) -> (r: bool)
        ensures
            r == self.spec_shift(),
    {
        self.shift_pressed
    }

    /// Handle one scancode from the data port: shift press (0x2A, 0x36) and
    /// release (0xAA, 0xB6) update the state; other releases (>= 0x80) are
    /// ignored; a make code is decoded with the current shift state.
    pub fn on_scancode(&mut self, scancode: u8) -> (r: KeyAction)
        ensures
            final(self).spec_shift() == (if scancode == 0x2A || scancode == 0x36 {
                true
            } else if scancode == 0xAA || scancode == 0xB6 {
                false
            } else {
                old(self).spec_shift()
            }),
            r == (if scancode == 0x2A || scancode == 0x36 || scancode == 0xAA || scancode == 0xB6 || scancode >= 0x80 {
                KeyAction::Ignore
            } else {
                action_of(key_char(scancode, old(self).spec_shift()))
            }),
    {
        if scancode == 0x2A || scancode == 0x36 {
            self.shift_pressed = true;
            return KeyAction::Ignore;
        }
        if scancode == 0xAA || scancode == 0xB6 {
            self.shift_pressed = false;
            return KeyAction::Ignore;
        }
        if scancode >= 0x80 {
            return KeyAction::Ignore;
        }
        match scancode_to_char(scancode, self.shift_pressed) {
            None => KeyAction::Ignore,
            Some(c) => {
                if c == '\x08' {
                    KeyAction::Backspace
                } else if c == '\x01' {
                    KeyAction::ArrowUp
                } else if c == '\x02' {
                    KeyAction::ArrowDown
                } else {
                    KeyAction::Char(c)
                }
            },
        }
    }
}

} // verus!
