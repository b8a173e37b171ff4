use myterm::config::parse_color;

#[test]
fn test_color_parsing() {
    let white = parse_color("#ffffff").expect("Failed to parse white");
    assert_eq!(white.r, 255);
    assert_eq!(white.g, 255);
    assert_eq!(white.b, 255);

    let black = parse_color("#000000").expect("Failed to parse black");
    assert_eq!(black.r, 0);
    assert_eq!(black.g, 0);
    assert_eq!(black.b, 0);

    let red = parse_color("#ff0000").expect("Failed to parse red");
    assert_eq!(red.r, 255);
    assert_eq!(red.g, 0);
    assert_eq!(red.b, 0);

    assert!(parse_color("invalid").is_err());
    assert!(parse_color("#gg0000").is_err());
    assert!(parse_color("#ff00").is_err());
}

use myterm::config::{format_color, ColorConfig, ColorError, KeybindingConfig, Rgb, TerminalConfig, CursorShape};

#[test]
fn colour_errors() {
    assert_eq!(parse_color("ffffff"), Err(ColorError::Unsupported));
    assert_eq!(parse_color(""), Err(ColorError::Unsupported));
    assert_eq!(parse_color("#fffffff"), Err(ColorError::InvalidLength));
    assert_eq!(parse_color("#12345g"), Err(ColorError::InvalidDigit));
    assert_eq!(parse_color("#+f+f+f"), Err(ColorError::InvalidDigit));
    assert_eq!(parse_color("#A0b1C2"), Ok(Rgb { r: 0xa0, g: 0xb1, b: 0xc2 }));
}

#[test]
fn colour_format_round_trip() {
    assert_eq!(format_color(Rgb { r: 0x0a, g: 0x1b, b: 0xfc }), "#0a1bfc");
    for &(r, g, b) in &[(0u8, 0u8, 0u8), (255, 255, 255), (1, 128, 254), (16, 15, 160)] {
        let c = Rgb { r, g, b };
        assert_eq!(parse_color(&format_color(c)), Ok(c));
    }
    for text in ["#000000", "#c0ffee", "#0a1b2c", "#ffffff"] {
        assert_eq!(format_color(parse_color(text).unwrap()), text);
    }
}

#[test]
fn default_settings() {
    let t = TerminalConfig::default();
    assert_eq!(t.scrollback_lines, 10000);
    assert_eq!(t.cursor_shape, CursorShape::Block);
    assert!(t.shell.is_none());
    let c = ColorConfig::default();
    assert_eq!(c.foreground, "#ffffff");
    assert_eq!(c.normal[1], "#800000");
    assert_eq!(c.bright[7], "#ffffff");
    assert_eq!(c.dim[7], "#606060");
    let k = KeybindingConfig::default();
    assert_eq!(k.copy, "Ctrl+Shift+C");
    assert_eq!(k.prev_tab, "Ctrl+Shift+Tab");
}
