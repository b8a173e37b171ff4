use vstd::prelude::*;
use vstd::string::*;
use crate::input::{Key, KeyCode, Modifiers, ALT_BIT, CTRL_BIT, SHIFT_BIT, SUPER_BIT};

verus! {

/// What the window hands to the terminal.
#[derive(Clone, Copy, Debug, PartialEq, Eq, Structural)]
pub enum Event {
    Resize(u32, u32),
    Key(Key),
    Close,
}

/// A control character: general category Cc, that is U+0000 to U+001F and U+007F to U+009F.
pub open spec fn is_control_char(c: char) -> bool {
    (c as u32) <= 0x1f || (0x7f <= (c as u32) && (c as u32) <= 0x9f)
}

/// Text that a key press types: not empty and not made of control characters alone.
pub open spec fn is_typed_text(t: Seq<char>) -> bool {
    t.len() > 0 && exists|i: int| 0 <= i < t.len() && !is_control_char(#[trigger] t[i])
}

/// The key of an evdev key code (offset by 8, as the compositor sends it) that has no text.
pub open spec fn raw_key_code(raw: u32) -> Option<KeyCode> {
    if raw == 9 {
        Some(KeyCode::Escape)
    } else if raw == 22 {
        Some(KeyCode::Backspace)
    } else if raw == 23 {
        Some(KeyCode::Tab)
    } else if raw == 36 {
        Some(KeyCode::Enter)
    } else if raw == 110 {
        Some(KeyCode::Home)
    } else if raw == 115 {
        Some(KeyCode::End)
    } else if raw == 112 {
        Some(KeyCode::PageUp)
    } else if raw == 117 {
        Some(KeyCode::PageDown)
    } else if raw == 111 {
        Some(KeyCode::Up)
    } else if raw == 116 {
        Some(KeyCode::Down)
    } else if raw == 113 {
        Some(KeyCode::Left)
    } else if raw == 114 {
        Some(KeyCode::Right)
    } else if raw == 119 {
        Some(KeyCode::Delete)
    } else if raw == 118 {
        Some(KeyCode::Insert)
    } else if 67 <= raw <= 76 {
        Some(KeyCode::F((raw - 66) as u8))
    } else {
        None
    }
}

/// The key of a key press: the first character of its text when it types something, else the
/// key that its code names, if any.
pub open spec fn key_of_press(text: Option<Seq<char>>, raw: u32, modifiers: Modifiers) -> Option<
    Key,
> {
    match text {
        Some(t) if is_typed_text(t) => Some(Key { code: KeyCode::Char(t[0]), modifiers }),
        _ => match raw_key_code(raw) {
            Some(code) => Some(Key { code, modifiers }),
            None => None,
        },
    }
}

fn is_control(c: char) -> (r: bool)
    ensures
        r == is_control_char(c),
{
    let v = c as u32;
    v <= 0x1f || (0x7f <= v && v <= 0x9f)
}

fn types_text(t: &str) -> (r: bool)
    ensures
        r == is_typed_text(t@),
{
    let n = t.unicode_len();
    let mut i: usize = 0;
    while i < n
        invariant
            n == t@.len(),
            i <= n,
            forall|k: int| 0 <= k < i ==> is_control_char(#[trigger] t@[k]),
        decreases n - i,
    {
        if !is_control(t.get_char(i)) {
            return true;
        }
        i = i + 1;
    }
    false
}

fn raw_key_code_exec(raw: u32) -> (r: Option<KeyCode>)
    ensures
        r == raw_key_code(raw),
{
    if raw == 9 {
        Some(KeyCode::Escape)
    } else if raw == 22 {
        Some(KeyCode::Backspace)
    } else if raw == 23 {
        Some(KeyCode::Tab)
    } else if raw == 36 {
        Some(KeyCode::Enter)
    } else if raw == 110 {
        Some(KeyCode::Home)
    } else if raw == 115 {
        Some(KeyCode::End)
    } else if raw == 112 {
        Some(KeyCode::PageUp)
    } else if raw == 117 {
        Some(KeyCode::PageDown)
    } else if raw == 111 {
        Some(KeyCode::Up)
    } else if raw == 116 {
        Some(KeyCode::Down)
    } else if raw == 113 {
        Some(KeyCode::Left)
    } else if raw == 114 {
        Some(KeyCode::Right)
    } else if raw == 119 {
        Some(KeyCode::Delete)
    } else if raw == 118 {
        Some(KeyCode::Insert)
    } else if 67 <= raw && raw <= 76 {
        Some(KeyCode::F((raw - 66) as u8))
    } else {
        None
    }
}

/// The key of a key press, from its text and its key code.
pub fn wayland_key_to_key(text: Option<&str>, raw_code: u32, modifiers: Modifiers) -> (r: Option<
    Key,
>)
    ensures
        r == key_of_press(
            match text {
                Some(t) => Some(t@),
                None => None,
            },
            raw_code,
            modifiers,
        ),
{
    match text {
        Some(t) => {
            if types_text(t) {
                return Some(Key::new(KeyCode::Char(t.get_char(0)), modifiers));
            }
        },
        None => {},
    }
    match raw_key_code_exec(raw_code) {
        Some(code) => Some(Key::new(code, modifiers)),
        None => None,
    }
}

/// The modifier set for the state of the Ctrl, Alt, Shift and logo keys.
pub fn modifiers_to_key_modifiers(ctrl: bool, alt: bool, shift: bool, logo: bool) -> (m:
    Modifiers)
    ensures
        m@ == (if ctrl {
            CTRL_BIT
        } else {
            0u8
        }) | (if alt {
            ALT_BIT
        } else {
            0u8
        }) | (if shift {
            SHIFT_BIT
        } else {
            0u8
        }) | (if logo {
            SUPER_BIT
        } else {
            0u8
        }),
{
    let c: u8 = if ctrl {
        CTRL_BIT
    } else {
        0
    };
    let a: u8 = if alt {
        ALT_BIT
    } else {
        0
    };
    let s: u8 = if shift {
        SHIFT_BIT
    } else {
        0
    };
    let l: u8 = if logo {
        SUPER_BIT
    } else {
        0
    };
    Modifiers { bits: c | a | s | l }
}

} // verus!
