use myterm::display::{grid_size, step_for_event, Event, LoopStep};
use myterm::input::{parse_key_binding, Key, KeyBindingError, KeyCode, Modifiers};
use myterm::wayland::{modifiers_to_key_modifiers, wayland_key_to_key};

#[test]
fn encoder_scenarios() {
    assert_eq!(Key::ctrl('a').to_bytes(), vec![0x01]);
    assert_eq!(Key::alt('x').to_bytes(), vec![0x1b, 0x78]);
    assert_eq!(Key::new(KeyCode::F(5), Modifiers::empty()).to_bytes(), b"\x1b[15~");
    assert_eq!(Key::new(KeyCode::Up, Modifiers::shift()).to_bytes(), b"\x1b[1;2A");
}

#[test]
fn encoder_special_keys() {
    assert_eq!(Key::ctrl('A').to_bytes(), vec![0x01]);
    assert_eq!(Key::ctrl('[').to_bytes(), vec![0x1b]);
    assert_eq!(Key::ctrl('?').to_bytes(), vec![0x7f]);
    assert_eq!(Key::ctrl('@').to_bytes(), vec![0x00]);
    assert_eq!(Key::char('\u{e9}').to_bytes(), vec![0xc3, 0xa9]);
    assert_eq!(Key::char('\u{20ac}').to_bytes(), vec![0xe2, 0x82, 0xac]);
    assert_eq!(Key::char('\u{1f600}').to_bytes(), vec![0xf0, 0x9f, 0x98, 0x80]);
    assert_eq!(Key::new(KeyCode::Home, Modifiers::ctrl()).to_bytes(), b"\x1b[1;5H");
    assert_eq!(Key::new(KeyCode::End, Modifiers::empty()).to_bytes(), b"\x1b[F");
    assert_eq!(Key::new(KeyCode::Left, Modifiers::ctrl()).to_bytes(), b"\x1b[1;5D");
    assert_eq!(Key::new(KeyCode::PageDown, Modifiers::empty()).to_bytes(), b"\x1b[6~");
    assert_eq!(Key::new(KeyCode::Delete, Modifiers::empty()).to_bytes(), b"\x1b[3~");
    assert_eq!(Key::new(KeyCode::F(12), Modifiers::empty()).to_bytes(), b"\x1b[24~");
    assert_eq!(Key::new(KeyCode::F(13), Modifiers::empty()).to_bytes(), b"");
    assert_eq!(Key::new(KeyCode::Menu, Modifiers::empty()).to_bytes(), b"");
    assert_eq!(Key::new(KeyCode::Escape, Modifiers::empty()).to_bytes(), vec![0x1b]);
}

#[test]
fn binding_round_trip_over_supported_keys() {
    let mut codes = vec![
        KeyCode::Enter,
        KeyCode::Tab,
        KeyCode::Backspace,
        KeyCode::Delete,
        KeyCode::Insert,
        KeyCode::Home,
        KeyCode::End,
        KeyCode::PageUp,
        KeyCode::PageDown,
        KeyCode::Up,
        KeyCode::Down,
        KeyCode::Left,
        KeyCode::Right,
        KeyCode::Escape,
    ];
    for n in 1..=12u8 {
        codes.push(KeyCode::F(n));
    }
    for b in 0x20u8..0x7f {
        let c = b as char;
        if c != '+' && !c.is_ascii_uppercase() {
            codes.push(KeyCode::Char(c));
        }
    }
    for code in codes {
        for bits in 0..16u8 {
            let mut m = Modifiers::empty();
            for (bit, flag) in [(1u8, Modifiers::shift()), (2, Modifiers::ctrl()), (4, Modifiers::alt()), (8, Modifiers::super_key())] {
                if bits & bit != 0 {
                    m.insert(flag);
                }
            }
            let key = Key::new(code, m);
            let text = key.to_string();
            assert_eq!(parse_key_binding(&text), Ok(key), "{}", text);
        }
    }
}

#[test]
fn binding_words_any_case() {
    let k = parse_key_binding("CTRL+shift+f12").unwrap();
    assert_eq!(k.code, KeyCode::F(12));
    assert_eq!(k.modifiers, Modifiers::ctrl() | Modifiers::shift());
    let k = parse_key_binding("Cmd+Q").unwrap();
    assert_eq!(k.code, KeyCode::Char('q'));
    assert_eq!(k.modifiers, Modifiers::super_key());
    let k = parse_key_binding("f01").unwrap();
    assert_eq!(k.code, KeyCode::F(1));
}

#[test]
fn binding_errors() {
    assert_eq!(parse_key_binding("Ctrl+Bogus"), Err(KeyBindingError::UnknownToken));
    assert_eq!(parse_key_binding("Ctrl+F13"), Err(KeyBindingError::UnknownToken));
    assert_eq!(parse_key_binding("Ctrl+"), Err(KeyBindingError::UnknownToken));
    assert_eq!(parse_key_binding("Ctrl+Shift"), Err(KeyBindingError::MissingKey));
    assert_eq!(parse_key_binding("\u{e9}"), Err(KeyBindingError::UnknownToken));
}

#[test]
fn key_text_of_other_keys() {
    assert_eq!(Key::new(KeyCode::F(12), Modifiers::super_key()).to_string(), "Super+F12");
    assert_eq!(Key::new(KeyCode::PrintScreen, Modifiers::empty()).to_string(), "PrintScreen");
    assert_eq!(
        Key::new(KeyCode::Char('x'), Modifiers::ctrl() | Modifiers::alt() | Modifiers::shift() | Modifiers::super_key()).to_string(),
        "Ctrl+Alt+Shift+Super+x"
    );
}

#[test]
fn keyboard_events_to_keys() {
    let m = modifiers_to_key_modifiers(true, false, true, false);
    assert_eq!(m, Modifiers::ctrl() | Modifiers::shift());
    assert_eq!(wayland_key_to_key(Some("q"), 24, m), Some(Key::new(KeyCode::Char('q'), m)));
    assert_eq!(wayland_key_to_key(Some("\r"), 36, Modifiers::empty()), Some(Key::new(KeyCode::Enter, Modifiers::empty())));
    assert_eq!(wayland_key_to_key(None, 67, Modifiers::empty()), Some(Key::new(KeyCode::F(1), Modifiers::empty())));
    assert_eq!(wayland_key_to_key(None, 76, Modifiers::empty()), Some(Key::new(KeyCode::F(10), Modifiers::empty())));
    assert_eq!(wayland_key_to_key(Some(""), 111, Modifiers::empty()), Some(Key::new(KeyCode::Up, Modifiers::empty())));
    assert_eq!(wayland_key_to_key(None, 50, Modifiers::empty()), None);
}

#[test]
fn grid_size_from_pixels() {
    assert_eq!(grid_size(1024, 768, 8, 16), (128, 48));
    assert_eq!(grid_size(3, 3, 8, 16), (1, 1));
    assert_eq!(grid_size(u32::MAX, u32::MAX, 1, 1), (0xffff, 0xffff));
}

#[test]
fn loop_steps() {
    assert_eq!(step_for_event(&Event::Resize(800, 600)), LoopStep::Resize { cols: 100, rows: 37 });
    assert_eq!(step_for_event(&Event::Key(Key::ctrl('c'))), LoopStep::Send(vec![3]));
    assert_eq!(step_for_event(&Event::Close), LoopStep::Stop);
}
