//! Keyboard input as the event loop hands it to the library, and the bytes
//! a key sends to a shell.
use vstd::prelude::*;

verus! {

#[derive(Debug, Clone, Copy, PartialEq, Eq, Structural)]
pub enum KeyCode {
    Char(char),
    Enter,
    Tab,
    BackTab,
    Backspace,
    Esc,
    Up,
    Down,
    Left,
    Right,
    Home,
    End,
    PageUp,
    PageDown,
    Delete,
    Insert,
    F(u8),
    Other,
}

#[derive(Debug, Clone, Copy, PartialEq, Eq, Structural)]
pub struct KeyMods {
    pub ctrl: bool,
    pub shift: bool,
    pub alt: bool,
}

#[derive(Debug, Clone, Copy, PartialEq, Eq, Structural)]
pub struct KeyEvent {
    pub code: KeyCode,
    pub mods: KeyMods,
}

#[derive(Debug, Clone, Copy, PartialEq, Eq, Structural)]
pub enum InputEvent {
    Key(KeyEvent),
    Resize(u16, u16),
    Other,
}

/// The UTF-8 encoding of a character.
pub open spec fn utf8(c: char) -> Seq<u8> {
    let v = (c as u32) as int;
    if v < 0x80 {
        seq![v as u8]
    } else if v < 0x800 {
        seq![(0xC0 + v / 64) as u8, (0x80 + v % 64) as u8]
    } else if v < 0x10000 {
        seq![(0xE0 + v / 4096) as u8, (0x80 + (v / 64) % 64) as u8, (0x80 + v % 64) as u8]
    } else {
        seq![(0xF0 + v / 262144) as u8, (0x80 + (v / 4096) % 64) as u8, (0x80 + (v / 64) % 64) as u8, (0x80 + v % 64) as u8]
    }
}

/// The control byte Ctrl plus this character sends, if it has one.
pub open spec fn ctrl_byte(c: char) -> Option<u8> {
    if c == '@' {
        Some(0x00u8)
    } else if 'a' <= c && c <= 'z' {
        Some(((c as u32) - 0x61 + 1) as u8)
    } else if c == '[' {
        Some(0x1bu8)
    } else if c == '\\' {
        Some(0x1cu8)
    } else if c == ']' {
        Some(0x1du8)
    } else if c == '^' {
        Some(0x1eu8)
    } else if c == '_' {
        Some(0x1fu8)
    } else {
        None
    }
}

/// The bytes a key sends to a terminal program; empty for keys that send
/// nothing.
pub open spec fn key_bytes(k: KeyEvent) -> Seq<u8> {
    match k.code {
        KeyCode::Char(c) => if k.mods.ctrl {
            match ctrl_byte(c) {
                Some(b) => seq![b],
                None => Seq::empty(),
            }
        } else {
            utf8(c)
        },
        KeyCode::Enter => seq![0x0du8],
        KeyCode::Tab => seq![0x09u8],
        KeyCode::Backspace => seq![0x7fu8],
        KeyCode::Esc => seq![0x1bu8],
        KeyCode::Up => seq![0x1bu8, 0x5bu8, 0x41u8],
        KeyCode::Down => seq![0x1bu8, 0x5bu8, 0x42u8],
        KeyCode::Right => seq![0x1bu8, 0x5bu8, 0x43u8],
        KeyCode::Left => seq![0x1bu8, 0x5bu8, 0x44u8],
        KeyCode::Home => seq![0x1bu8, 0x5bu8, 0x48u8],
        KeyCode::End => seq![0x1bu8, 0x5bu8, 0x46u8],
        _ => Seq::empty(),
    }
}

fn utf8_bytes(c: char) -> (r: Vec<u8>)
    ensures
        r@ == utf8(c),
{
    let v: u32 = c as u32;
    if v < 0x80 {
        vec![v as u8]
    } else if v < 0x800 {
        vec![(0xC0 + v / 64) as u8, (0x80 + v % 64) as u8]
    } else if v < 0x10000 {
        vec![(0xE0 + v / 4096) as u8, (0x80 + (v / 64) % 64) as u8, (0x80 + v % 64) as u8]
    } else {
        assert(v <= 0x10FFFF);
        vec![(0xF0 + v / 262144) as u8, (0x80 + (v / 4096) % 64) as u8, (0x80 + (v / 64) % 64) as u8, (0x80 + v % 64) as u8]
    }
}

/// The bytes a key sends to the shell of a focused session: the character
/// (UTF-8), its control byte with Ctrl, or the escape sequence of a
/// cursor, editing or navigation key; nothing for other keys.
pub fn encode_key(key: &KeyEvent) -> (r: Vec<u8>)
    ensures
        r@ == key_bytes(*key),
{
    match key.code {
        KeyCode::Char(c) => {
            if key.mods.ctrl {
                if c == '@' {
                    vec![0x00u8]
                } else if 'a' <= c && c <= 'z' {
                    vec![((c as u32) - 0x61 + 1) as u8]
                } else if c == '[' {
                    vec![0x1bu8]
                } else if c == '\\' {
                    vec![0x1cu8]
                } else if c == ']' {
                    vec![0x1du8]
                } else if c == '^' {
                    vec![0x1eu8]
                } else if c == '_' {
                    vec![0x1fu8]
                } else {
                    Vec::new()
                }
            } else {
                utf8_bytes(c)
            }
        },
        KeyCode::Enter => vec![0x0du8],
        KeyCode::Tab => vec![0x09u8],
        KeyCode::Backspace => vec![0x7fu8],
        KeyCode::Esc => vec![0x1bu8],
        KeyCode::Up => vec![0x1bu8, 0x5bu8, 0x41u8],
        KeyCode::Down => vec![0x1bu8, 0x5bu8, 0x42u8],
        KeyCode::Right => vec![0x1bu8, 0x5bu8, 0x43u8],
        KeyCode::Left => vec![0x1bu8, 0x5bu8, 0x44u8],
        KeyCode::Home => vec![0x1bu8, 0x5bu8, 0x48u8],
        KeyCode::End => vec![0x1bu8, 0x5bu8, 0x46u8],
        _ => Vec::new(),
    }
}

} // verus!
