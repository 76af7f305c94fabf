//! Turning key presses into the bytes a terminal application reads.
use vstd::prelude::*;

verus! {

/// A key of the keyboard, in the order of its key code.
#[derive(Clone, Copy, Debug, PartialEq, Eq, Structural)]
pub enum Key {
    Key0,
    Key1,
    Key2,
    Key3,
    Key4,
    Key5,
    Key6,
    Key7,
    Key8,
    Key9,
    A,
    B,
    C,
    D,
    E,
    F,
    G,
    H,
    I,
    J,
    K,
    L,
    M,
    N,
    O,
    P,
    Q,
    R,
    S,
    T,
    U,
    V,
    W,
    X,
    Y,
    Z,
    F1,
    F2,
    F3,
    F4,
    F5,
    F6,
    F7,
    F8,
    F9,
    F10,
    F11,
    F12,
    F13,
    F14,
    F15,
    Down,
    Left,
    Right,
    Up,
    Apostrophe,
    Backquote,
    Backslash,
    Comma,
    Equal,
    LeftBracket,
    Minus,
    Period,
    RightBracket,
    Semicolon,
    Slash,
    Backspace,
    Delete,
    End,
    Enter,
    Escape,
    Home,
    Insert,
    Menu,
    PageDown,
    PageUp,
    Pause,
    Space,
    Tab,
    NumLock,
    CapsLock,
    ScrollLock,
    LeftShift,
    RightShift,
    LeftCtrl,
    RightCtrl,
    NumPad0,
    NumPad1,
    NumPad2,
    NumPad3,
    NumPad4,
    NumPad5,
    NumPad6,
    NumPad7,
    NumPad8,
    NumPad9,
    NumPadDot,
    NumPadSlash,
    NumPadAsterisk,
    NumPadMinus,
    NumPadPlus,
    NumPadEnter,
    LeftAlt,
    RightAlt,
    LeftSuper,
    RightSuper,
    Unknown,
    Count,
}

/// The code of a key: digits are 0 to 9, letters 10 to 35, and the other keys follow.
pub open spec fn key_code(k: Key) -> u8 {
    match k {
        Key::Key0 => 0,
        Key::Key1 => 1,
        Key::Key2 => 2,
        Key::Key3 => 3,
        Key::Key4 => 4,
        Key::Key5 => 5,
        Key::Key6 => 6,
        Key::Key7 => 7,
        Key::Key8 => 8,
        Key::Key9 => 9,
        Key::A => 10,
        Key::B => 11,
        Key::C => 12,
        Key::D => 13,
        Key::E => 14,
        Key::F => 15,
        Key::G => 16,
        Key::H => 17,
        Key::I => 18,
        Key::J => 19,
        Key::K => 20,
        Key::L => 21,
        Key::M => 22,
        Key::N => 23,
        Key::O => 24,
        Key::P => 25,
        Key::Q => 26,
        Key::R => 27,
        Key::S => 28,
        Key::T => 29,
        Key::U => 30,
        Key::V => 31,
        Key::W => 32,
        Key::X => 33,
        Key::Y => 34,
        Key::Z => 35,
        Key::F1 => 36,
        Key::F2 => 37,
        Key::F3 => 38,
        Key::F4 => 39,
        Key::F5 => 40,
        Key::F6 => 41,
        Key::F7 => 42,
        Key::F8 => 43,
        Key::F9 => 44,
        Key::F10 => 45,
        Key::F11 => 46,
        Key::F12 => 47,
        Key::F13 => 48,
        Key::F14 => 49,
        Key::F15 => 50,
        Key::Down => 51,
        Key::Left => 52,
        Key::Right => 53,
        Key::Up => 54,
        Key::Apostrophe => 55,
        Key::Backquote => 56,
        Key::Backslash => 57,
        Key::Comma => 58,
        Key::Equal => 59,
        Key::LeftBracket => 60,
        Key::Minus => 61,
        Key::Period => 62,
        Key::RightBracket => 63,
        Key::Semicolon => 64,
        Key::Slash => 65,
        Key::Backspace => 66,
        Key::Delete => 67,
        Key::End => 68,
        Key::Enter => 69,
        Key::Escape => 70,
        Key::Home => 71,
        Key::Insert => 72,
        Key::Menu => 73,
        Key::PageDown => 74,
        Key::PageUp => 75,
        Key::Pause => 76,
        Key::Space => 77,
        Key::Tab => 78,
        Key::NumLock => 79,
        Key::CapsLock => 80,
        Key::ScrollLock => 81,
        Key::LeftShift => 82,
        Key::RightShift => 83,
        Key::LeftCtrl => 84,
        Key::RightCtrl => 85,
        Key::NumPad0 => 86,
        Key::NumPad1 => 87,
        Key::NumPad2 => 88,
        Key::NumPad3 => 89,
        Key::NumPad4 => 90,
        Key::NumPad5 => 91,
        Key::NumPad6 => 92,
        Key::NumPad7 => 93,
        Key::NumPad8 => 94,
        Key::NumPad9 => 95,
        Key::NumPadDot => 96,
        Key::NumPadSlash => 97,
        Key::NumPadAsterisk => 98,
        Key::NumPadMinus => 99,
        Key::NumPadPlus => 100,
        Key::NumPadEnter => 101,
        Key::LeftAlt => 102,
        Key::RightAlt => 103,
        Key::LeftSuper => 104,
        Key::RightSuper => 105,
        Key::Unknown => 106,
        Key::Count => 107,
    }
}

impl Key {
    /// The code of this key.
    pub fn code(self) -> (c: u8)
        ensures
            c == key_code(self),
    {
        self as u8
    }
}

/// Which modifier keys are held.
#[derive(Clone, Copy, Debug)]
pub struct Modifiers {
    pub shift: bool,
    pub alt: bool,
    pub ctrl: bool,
}

/// The modifier bits: shift is 1, alt is 2, ctrl is 4.
pub open spec fn modifier_bits(m: Modifiers) -> u8 {
    ((if m.shift { 1u8 } else { 0u8 }) + (if m.alt { 2u8 } else { 0u8 }) + (if m.ctrl { 4u8 } else { 0u8 })) as u8
}

impl Modifiers {
    /// The modifier bits of this state: shift is 1, alt is 2, ctrl is 4.
    pub fn x(self) -> (bits: u8)
        ensures
            bits == modifier_bits(self),
            bits < 8,
    {
        let s: u8 = if self.shift { 1 } else { 0 };
        let a: u8 = if self.alt { 2 } else { 0 };
        let c: u8 = if self.ctrl { 4 } else { 0 };
        let bits = s | a | c;
        assert(bits == s + a + c) by (bit_vector)
            requires
                s == 0 || s == 1,
                a == 0 || a == 2,
                c == 0 || c == 4,
                bits == s | a | c,
        ;
        bits
    }
}

/// Whether `k` is one of the modifier keys, or a super key.
pub open spec fn is_modifier(k: Key) -> bool {
    matches!(k, Key::LeftSuper | Key::RightSuper | Key::LeftAlt | Key::RightAlt | Key::LeftShift | Key::RightShift | Key::LeftCtrl | Key::RightCtrl)
}

/// The modifiers after key `k` goes down (`down`) or up.
pub open spec fn next_modifiers(m: Modifiers, k: Key, down: bool) -> Modifiers {
    let alt_key = k == Key::LeftAlt || k == Key::RightAlt;
    let shift_key = k == Key::LeftShift || k == Key::RightShift;
    let ctrl_key = k == Key::LeftCtrl || k == Key::RightCtrl;
    Modifiers {
        shift: if shift_key { down } else { m.shift },
        alt: if alt_key { down } else { m.alt },
        ctrl: if ctrl_key { down } else { m.ctrl },
    }
}

/// The byte of a letter key (codes 10 to 34), upper case when shift is held.
pub open spec fn letter_byte(m: Modifiers, code: u8) -> u8 {
    if m.shift { (code - 10 + 65) as u8 } else { (code - 10 + 97) as u8 }
}

/// The final byte of the escape sequence of a cursor key.
pub open spec fn cursor_final(k: Key) -> u8 {
    match k {
        Key::Up => 65,
        Key::Down => 66,
        Key::Right => 67,
        Key::Left => 68,
        Key::Home | Key::NumPad7 => 72,
        _ => 70,
    }
}

/// The characters on the digit keys `0` to `9` when shift is held.
pub open spec fn shifted_digits() -> Seq<u8> {
    seq![41u8, 33, 64, 35, 36, 37, 94, 38, 42, 40]
}

/// What a key sends when no letter rule applies.
pub open spec fn plain_bytes(m: Modifiers, k: Key) -> Seq<u8> {
    let code = key_code(k);
    match k {
        Key::Enter => seq![10u8],
        Key::Delete => seq![27u8, 91, 51, 126],
        Key::Insert => seq![27u8, 91, 50, 126],
        Key::Escape => seq![27u8],
        Key::Up | Key::Down | Key::Left | Key::Right | Key::Home | Key::End | Key::NumPad7 | Key::NumPad1 =>
            if m.shift || m.alt || m.ctrl {
                seq![27u8, 91, 49, 59, (49 + modifier_bits(m)) as u8, cursor_final(k)]
            } else {
                seq![27u8, 91, cursor_final(k)]
            },
        Key::Apostrophe => if m.shift { seq![34u8] } else { seq![39u8] },
        Key::Space => seq![32u8],
        Key::Period => if m.shift { seq![62u8] } else { seq![46u8] },
        Key::Slash => if m.shift { seq![63u8] } else { seq![47u8] },
        Key::Backslash => if m.shift { seq![124u8] } else { seq![92u8] },
        Key::Backspace => seq![8u8],
        Key::Equal => if m.shift { seq![43u8] } else { seq![61u8] },
        Key::Tab => seq![9u8],
        Key::Minus => if m.shift { seq![95u8] } else { seq![45u8] },
        Key::LeftBracket => if m.shift { seq![123u8] } else { seq![91u8] },
        Key::RightBracket => seq![93u8],
        Key::Semicolon => if m.shift { seq![58u8] } else { seq![59u8] },
        Key::Comma => if m.shift { seq![60u8] } else { seq![44u8] },
        Key::Backquote => if m.shift { seq![126u8] } else { seq![96u8] },
        _ => if code < 10 {
            if m.shift { seq![shifted_digits()[code as int]] } else { seq![(code + 48) as u8] }
        } else if m.ctrl {
            seq![(code - 9) as u8]
        } else if m.shift {
            seq![(code - 10 + 65) as u8]
        } else {
            seq![(code - 10 + 97) as u8]
        },
    }
}

/// What pressing key `k` sends while the modifiers `m` are held.
pub open spec fn press_bytes(m: Modifiers, k: Key) -> Seq<u8> {
    let code = key_code(k);
    let letter = 10 <= code <= 34;
    if is_modifier(k) {
        seq![]
    } else if letter && m.ctrl {
        if m.alt { seq![27u8, (code - 9) as u8] } else { seq![(code - 9) as u8] }
    } else if letter && m.alt {
        seq![27u8, letter_byte(m, code)]
    } else {
        plain_bytes(m, k)
    }
}

/// Pressing a shift, alt or ctrl key sends nothing and holds that modifier;
/// releasing it sends nothing and lets it go; the other modifiers stay as they were.
pub proof fn modifier_press_release(m: Modifiers, k: Key)
    requires
        matches!(k, Key::LeftAlt | Key::RightAlt | Key::LeftShift | Key::RightShift | Key::LeftCtrl | Key::RightCtrl),
    ensures
        press_bytes(m, k) == Seq::<u8>::empty(),
        ({
            let up = next_modifiers(next_modifiers(m, k, true), k, false);
            &&& (k == Key::LeftAlt || k == Key::RightAlt) ==> next_modifiers(m, k, true).alt && !up.alt && up.shift == m.shift && up.ctrl == m.ctrl
            &&& (k == Key::LeftShift || k == Key::RightShift) ==> next_modifiers(m, k, true).shift && !up.shift && up.alt == m.alt && up.ctrl == m.ctrl
            &&& (k == Key::LeftCtrl || k == Key::RightCtrl) ==> next_modifiers(m, k, true).ctrl && !up.ctrl && up.alt == m.alt && up.shift == m.shift
        }),
{
}

/// The cursor keys send `ESC [ f` with no modifier held, and `ESC [ 1 ; d f` with
/// some: `f` is `A`, `B`, `C`, `D` for up, down, right and left, `H` for Home and
/// keypad 7, `F` for End and keypad 1, and the digit `d` is 1 plus 1 for shift,
/// 2 for alt and 4 for ctrl: `2` shift, `3` alt, `4` shift+alt, `5` ctrl,
/// `6` shift+ctrl, `7` alt+ctrl, `8` all three.
pub proof fn cursor_key_bytes(m: Modifiers, k: Key)
    requires
        matches!(k, Key::Up | Key::Down | Key::Left | Key::Right | Key::Home | Key::End | Key::NumPad7 | Key::NumPad1),
    ensures
        ({
            let f: u8 = match k {
                Key::Up => 65u8,
                Key::Down => 66u8,
                Key::Right => 67u8,
                Key::Left => 68u8,
                Key::Home => 72u8,
                Key::NumPad7 => 72u8,
                _ => 70u8,
            };
            let d: u8 = if m.ctrl {
                if m.alt {
                    if m.shift { 56u8 } else { 55u8 }
                } else {
                    if m.shift { 54u8 } else { 53u8 }
                }
            } else if m.alt {
                if m.shift { 52u8 } else { 51u8 }
            } else {
                50u8
            };
            &&& !(m.shift || m.alt || m.ctrl) ==> press_bytes(m, k) == seq![27u8, 91u8, f]
            &&& (m.shift || m.alt || m.ctrl) ==> press_bytes(m, k) == seq![27u8, 91u8, 49u8, 59u8, d, f]
        }),
{
    assert(!is_modifier(k));
    assert(!(10 <= key_code(k) <= 34));
}

/// With ctrl held and alt not, a letter key from `a` to `y` sends the single
/// control code of that letter, from 1 to 25.
pub proof fn ctrl_letter_sends_control_code(m: Modifiers, k: Key)
    requires
        m.ctrl,
        !m.alt,
        10 <= key_code(k) <= 34,
    ensures
        press_bytes(m, k) == seq![(key_code(k) - 9) as u8],
        1 <= key_code(k) - 9 <= 25,
{
    assert(!is_modifier(k));
}

/// The keyboard: the modifier keys held now.
pub struct Board {
    pub mods: Modifiers,
}

impl Board {
    /// A keyboard with no modifier held.
    pub fn new() -> (b: Self)
        ensures
            b.mods == (Modifiers { alt: false, shift: false, ctrl: false }),
    {
        Self { mods: Modifiers { alt: false, shift: false, ctrl: false } }
    }

    /// Key `k` went down (`s`) or up. Returns the bytes to send to the application:
    /// nothing on release, and on a press what `press_bytes` gives for the modifiers
    /// held before it; modifier keys update the held modifiers.
    pub fn rx(&mut self, k: Key, s: bool) -> (out: Vec<u8>)
        ensures
            out@ == if s { press_bytes(old(self).mods, k) } else { seq![] },
            final(self).mods == next_modifiers(old(self).mods, k, s),
    {
        if !s {
            if k == Key::LeftAlt || k == Key::RightAlt {
                self.mods.alt = false;
            }
            if k == Key::LeftShift || k == Key::RightShift {
                self.mods.shift = false;
            }
            if k == Key::LeftCtrl || k == Key::RightCtrl {
                self.mods.ctrl = false;
            }
            return Vec::new();
        }
        let code = k.code();
        let shift = self.mods.shift;
        let alt = self.mods.alt;
        let ctrl = self.mods.ctrl;
        let letter = 10 <= code && code <= 34;
        match k {
            Key::LeftSuper | Key::RightSuper => Vec::new(),
            Key::LeftAlt | Key::RightAlt => {
                self.mods.alt = true;
                Vec::new()
            },
            Key::LeftShift | Key::RightShift => {
                self.mods.shift = true;
                Vec::new()
            },
            Key::LeftCtrl | Key::RightCtrl => {
                self.mods.ctrl = true;
                Vec::new()
            },
            _ => {
                if letter && ctrl {
                    let upper: u8 = code - 10 + 65;
                    let b = upper & 0x1f;
                    assert(b == code - 9) by (bit_vector)
                        requires
                            10 <= code <= 34,
                            upper == code - 10 + 65,
                            b == upper & 0x1f,
                    ;
                    if alt {
                        vec![0x1b, b]
                    } else {
                        vec![b]
                    }
                } else if letter && alt {
                    let l: u8 = if shift { code - 10 + 65 } else { code - 10 + 97 };
                    vec![0x1b, l]
                } else {
                    self.plain(k)
                }
            },
        }
    }

    fn plain(&self, k: Key) -> (out: Vec<u8>)
        ensures
            out@ == plain_bytes(self.mods, k),
    {
        let shift = self.mods.shift;
        let code = k.code();
        match k {
            Key::Enter => vec![10],
            Key::Delete => vec![27, 91, 51, 126],
            Key::Insert => vec![27, 91, 50, 126],
            Key::Escape => vec![27],
            Key::Up | Key::Down | Key::Left | Key::Right | Key::Home | Key::End | Key::NumPad7 | Key::NumPad1 => {
                let c: u8 = match k {
                    Key::Up => 65,
                    Key::Down => 66,
                    Key::Right => 67,
                    Key::Left => 68,
                    Key::Home | Key::NumPad7 => 72,
                    _ => 70,
                };
                if self.mods.shift || self.mods.alt || self.mods.ctrl {
                    vec![27, 91, 49, 59, 1 + self.mods.x() + 48, c]
                } else {
                    vec![27, 91, c]
                }
            },
            Key::Apostrophe => if shift { vec![34] } else { vec![39] },
            Key::Space => vec![32],
            Key::Period => if shift { vec![62] } else { vec![46] },
            Key::Slash => if shift { vec![63] } else { vec![47] },
            Key::Backslash => if shift { vec![124] } else { vec![92] },
            Key::Backspace => vec![8],
            Key::Equal => if shift { vec![43] } else { vec![61] },
            Key::Tab => vec![9],
            Key::Minus => if shift { vec![95] } else { vec![45] },
            Key::LeftBracket => if shift { vec![123] } else { vec![91] },
            Key::RightBracket => vec![93],
            Key::Semicolon => if shift { vec![58] } else { vec![59] },
            Key::Comma => if shift { vec![60] } else { vec![44] },
            Key::Backquote => if shift { vec![126] } else { vec![96] },
            _ => {
                if code < 10 {
                    if shift {
                        let table: [u8; 10] = [41, 33, 64, 35, 36, 37, 94, 38, 42, 40];
                        assert(table@ =~= shifted_digits());
                        vec![table[code as usize]]
                    } else {
                        vec![code + 48]
                    }
                } else if self.mods.ctrl {
                    vec![code - 9]
                } else if shift {
                    vec![code - 10 + 65]
                } else {
                    vec![code - 10 + 97]
                }
            },
        }
    }
}

} // verus!
