use vstd::prelude::*;
use vstd::string::*;
use crate::text::push_char;

verus! {

/// An RGB colour with eight bits per channel.
#[derive(Clone, Copy, Debug, PartialEq, Eq, Structural)]
pub struct Rgb {
    pub r: u8,
    pub g: u8,
    pub b: u8,
}

impl Rgb {
    pub fn new(r: u8, g: u8, b: u8) -> (c: Rgb)
        ensures
            c == (Rgb { r, g, b }),
    {
        Rgb { r, g, b }
    }
}

/// How the cursor is drawn.
#[derive(Clone, Copy, Debug, PartialEq, Eq, Structural)]
pub enum CursorShape {
    Block,
    Underline,
    Beam,
}

/// How the window first appears.
#[derive(Clone, Copy, Debug, PartialEq, Eq, Structural)]
pub enum StartupMode {
    Windowed,
    Maximized,
    Fullscreen,
}

/// Why a colour string was refused.
#[derive(Clone, Copy, Debug, PartialEq, Eq, Structural)]
pub enum ColorError {
    /// It does not start with `#`.
    Unsupported,
    /// It starts with `#` but is not followed by exactly six characters.
    InvalidLength,
    /// One of the six characters is not a hexadecimal digit.
    InvalidDigit,
}

/// The value of a hexadecimal digit, either case.
pub open spec fn hex_value(c: char) -> Option<u8> {
    if '0' <= c <= '9' {
        Some((c as u32 - '0' as u32) as u8)
    } else if 'a' <= c <= 'f' {
        Some((c as u32 - 'a' as u32 + 10) as u8)
    } else if 'A' <= c <= 'F' {
        Some((c as u32 - 'A' as u32 + 10) as u8)
    } else {
        None
    }
}

/// The lower-case hexadecimal digit for `d` (below 16).
pub open spec fn hex_digit(d: u8) -> char {
    if d < 10 {
        (d + 48) as char
    } else {
        (d + 87) as char
    }
}

/// The byte written by the two hexadecimal digits at `s[i]` and `s[i + 1]`.
pub open spec fn hex_byte(s: Seq<char>, i: int) -> u8 {
    (hex_value(s[i]).unwrap() * 16 + hex_value(s[i + 1]).unwrap()) as u8
}

/// `#rrggbb`, with six hexadecimal digits of either case.
pub open spec fn parse_color_spec(s: Seq<char>) -> Result<Rgb, ColorError> {
    if s.len() == 0 || s[0] != '#' {
        Err(ColorError::Unsupported)
    } else if s.len() != 7 {
        Err(ColorError::InvalidLength)
    } else if exists|i: int| 1 <= i < 7 && (#[trigger] hex_value(s[i])) is None {
        Err(ColorError::InvalidDigit)
    } else {
        Ok(Rgb { r: hex_byte(s, 1), g: hex_byte(s, 3), b: hex_byte(s, 5) })
    }
}

/// `#rrggbb` in lower-case hexadecimal.
pub open spec fn format_color_spec(c: Rgb) -> Seq<char> {
    seq![
        '#',
        hex_digit(c.r / 16),
        hex_digit(c.r % 16),
        hex_digit(c.g / 16),
        hex_digit(c.g % 16),
        hex_digit(c.b / 16),
        hex_digit(c.b % 16),
    ]
}

fn hex_value_exec(c: char) -> (r: Option<u8>)
    ensures
        r == hex_value(c),
{
    if '0' <= c && c <= '9' {
        Some((c as u32 - '0' as u32) as u8)
    } else if 'a' <= c && c <= 'f' {
        Some((c as u32 - 'a' as u32 + 10) as u8)
    } else if 'A' <= c && c <= 'F' {
        Some((c as u32 - 'A' as u32 + 10) as u8)
    } else {
        None
    }
}

fn hex_digit_exec(d: u8) -> (c: char)
    requires
        d < 16,
    ensures
        c == hex_digit(d),
{
    if d < 10 {
        (d + 48) as char
    } else {
        (d + 87) as char
    }
}

/// Parses a colour written `#rrggbb`.
pub fn parse_color(color_str: &str) -> (r: Result<Rgb, ColorError>)
    ensures
        r == parse_color_spec(color_str@),
{
    let n = color_str.unicode_len();
    if n == 0 || color_str.get_char(0) != '#' {
        return Err(ColorError::Unsupported);
    }
    if n != 7 {
        return Err(ColorError::InvalidLength);
    }
    let mut digits: Vec<u8> = Vec::new();
    let mut i: usize = 1;
    while i < 7
        invariant
            1 <= i <= 7,
            color_str@.len() == 7,
            color_str@[0] == '#',
            digits@.len() == i - 1,
            forall|k: int| 1 <= k < i ==> hex_value(#[trigger] color_str@[k]) == Some(digits@[k - 1]),
        decreases 7 - i,
    {
        match hex_value_exec(color_str.get_char(i)) {
            Some(d) => digits.push(d),
            None => {
                assert(hex_value(color_str@[i as int]) is None);
                return Err(ColorError::InvalidDigit);
            },
        }
        i = i + 1;
    }
    assert forall|k: int| 1 <= k < 7 implies (#[trigger] hex_value(color_str@[k])) is Some by {
        assert(hex_value(color_str@[k]) == Some(digits@[k - 1]));
    }
    assert(digits@[0] < 16 && digits@[1] < 16 && digits@[2] < 16);
    assert(hex_value(color_str@[1]) == Some(digits@[0]));
    assert(hex_value(color_str@[2]) == Some(digits@[1]));
    assert(hex_value(color_str@[3]) == Some(digits@[2]));
    assert(hex_value(color_str@[4]) == Some(digits@[3]));
    assert(hex_value(color_str@[5]) == Some(digits@[4]));
    assert(hex_value(color_str@[6]) == Some(digits@[5]));
    Ok(
        Rgb {
            r: digits[0] * 16 + digits[1],
            g: digits[2] * 16 + digits[3],
            b: digits[4] * 16 + digits[5],
        },
    )
}

/// Writes a colour as `#rrggbb` in lower-case hexadecimal.
pub fn format_color(c: Rgb) -> (s: String)
    ensures
        s@ == format_color_spec(c),
{
    let mut s = String::new();
    push_char(&mut s, '#');
    push_char(&mut s, hex_digit_exec(c.r / 16));
    push_char(&mut s, hex_digit_exec(c.r % 16));
    push_char(&mut s, hex_digit_exec(c.g / 16));
    push_char(&mut s, hex_digit_exec(c.g % 16));
    push_char(&mut s, hex_digit_exec(c.b / 16));
    push_char(&mut s, hex_digit_exec(c.b % 16));
    assert(s@ =~= format_color_spec(c));
    s
}

proof fn lemma_hex_digit_value(d: u8)
    requires
        d < 16,
    ensures
        hex_value(hex_digit(d)) == Some(d),
{
}

/// Formatting a colour and parsing the text gives the colour back.
pub proof fn lemma_parse_format_color(c: Rgb)
    ensures
        parse_color_spec(format_color_spec(c)) == Ok::<Rgb, ColorError>(c),
{
    let s = format_color_spec(c);
    lemma_hex_digit_value(c.r / 16);
    lemma_hex_digit_value(c.r % 16);
    lemma_hex_digit_value(c.g / 16);
    lemma_hex_digit_value(c.g % 16);
    lemma_hex_digit_value(c.b / 16);
    lemma_hex_digit_value(c.b % 16);
    assert(s[1] == hex_digit(c.r / 16));
    assert(s[2] == hex_digit(c.r % 16));
    assert(s[3] == hex_digit(c.g / 16));
    assert(s[4] == hex_digit(c.g % 16));
    assert(s[5] == hex_digit(c.b / 16));
    assert(s[6] == hex_digit(c.b % 16));
    assert(!exists|i: int| 1 <= i < 7 && (#[trigger] hex_value(s[i])) is None);
}

/// Text that is `#` and six lower-case hexadecimal digits.
pub open spec fn is_lower_hex_color(s: Seq<char>) -> bool {
    &&& s.len() == 7
    &&& s[0] == '#'
    &&& forall|i: int| 1 <= i < 7 ==> ('0' <= #[trigger] s[i] <= '9' || 'a' <= s[i] <= 'f')
}

/// Parsing a lower-case `#rrggbb` and formatting the colour gives the same text back.
pub proof fn lemma_format_parse_color(s: Seq<char>)
    requires
        is_lower_hex_color(s),
    ensures
        parse_color_spec(s) is Ok,
        format_color_spec(parse_color_spec(s).unwrap()) == s,
{
    assert(!exists|i: int| 1 <= i < 7 && (#[trigger] hex_value(s[i])) is None) by {
        assert forall|i: int| 1 <= i < 7 implies (#[trigger] hex_value(s[i])) is Some by {
            assert('0' <= s[i] <= '9' || 'a' <= s[i] <= 'f');
        }
    }
    let c = parse_color_spec(s).unwrap();
    assert forall|i: int| 1 <= i < 7 implies hex_digit(#[trigger] hex_value(s[i]).unwrap()) == s[i] by {
        assert('0' <= s[i] <= '9' || 'a' <= s[i] <= 'f');
    }
    let t = format_color_spec(c);
    assert(hex_digit(hex_value(s[1]).unwrap()) == s[1]);
    assert(hex_digit(hex_value(s[2]).unwrap()) == s[2]);
    assert(hex_digit(hex_value(s[3]).unwrap()) == s[3]);
    assert(hex_digit(hex_value(s[4]).unwrap()) == s[4]);
    assert(hex_digit(hex_value(s[5]).unwrap()) == s[5]);
    assert(hex_digit(hex_value(s[6]).unwrap()) == s[6]);
    assert(t =~= s);
}

/// `PathBuf`, carried through the settings without being looked into.
#[verifier::external_type_specification]
#[verifier::external_body]
pub struct ExPathBuf(std::path::PathBuf);

/// Settings of the terminal itself.
#[derive(Clone, Debug)]
pub struct TerminalConfig {
    pub scrollback_lines: u32,
    pub shell: Option<String>,
    pub working_directory: Option<std::path::PathBuf>,
    pub cursor_blink: bool,
    pub cursor_shape: CursorShape,
}

impl Default for TerminalConfig {
    fn default() -> (c: TerminalConfig)
        ensures
            c.scrollback_lines == 10000,
            c.shell is None,
            c.working_directory is None,
            c.cursor_blink,
            c.cursor_shape == CursorShape::Block,
    {
        TerminalConfig {
            scrollback_lines: 10000,
            shell: None,
            working_directory: None,
            cursor_blink: true,
            cursor_shape: CursorShape::Block,
        }
    }
}

/// The colour scheme, each colour written `#rrggbb`.
#[derive(Clone, Debug)]
pub struct ColorConfig {
    pub foreground: String,
    pub background: String,
    pub cursor: String,
    pub selection_background: String,
    pub selection_foreground: String,
    pub normal: [String; 8],
    pub bright: [String; 8],
    pub dim: [String; 8],
}

impl Default for ColorConfig {
    fn default() -> (c: ColorConfig)
        ensures
            c.foreground@ == "#ffffff"@,
            c.background@ == "#000000"@,
            c.cursor@ == "#ffffff"@,
            c.selection_background@ == "#444444"@,
            c.selection_foreground@ == "#ffffff"@,
            c.normal@.map_values(|s: String| s@) == seq![
                "#000000"@,
                "#800000"@,
                "#008000"@,
                "#808000"@,
                "#000080"@,
                "#800080"@,
                "#008080"@,
                "#c0c0c0"@,
            ],
            c.bright@.map_values(|s: String| s@) == seq![
                "#808080"@,
                "#ff0000"@,
                "#00ff00"@,
                "#ffff00"@,
                "#0000ff"@,
                "#ff00ff"@,
                "#00ffff"@,
                "#ffffff"@,
            ],
            c.dim@.map_values(|s: String| s@) == seq![
                "#000000"@,
                "#400000"@,
                "#004000"@,
                "#404000"@,
                "#000040"@,
                "#400040"@,
                "#004040"@,
                "#606060"@,
            ],
    {
        let c = ColorConfig {
            foreground: String::from_str("#ffffff"),
            background: String::from_str("#000000"),
            cursor: String::from_str("#ffffff"),
            selection_background: String::from_str("#444444"),
            selection_foreground: String::from_str("#ffffff"),
            normal: [
                String::from_str("#000000"),
                String::from_str("#800000"),
                String::from_str("#008000"),
                String::from_str("#808000"),
                String::from_str("#000080"),
                String::from_str("#800080"),
                String::from_str("#008080"),
                String::from_str("#c0c0c0"),
            ],
            bright: [
                String::from_str("#808080"),
                String::from_str("#ff0000"),
                String::from_str("#00ff00"),
                String::from_str("#ffff00"),
                String::from_str("#0000ff"),
                String::from_str("#ff00ff"),
                String::from_str("#00ffff"),
                String::from_str("#ffffff"),
            ],
            dim: [
                String::from_str("#000000"),
                String::from_str("#400000"),
                String::from_str("#004000"),
                String::from_str("#404000"),
                String::from_str("#000040"),
                String::from_str("#400040"),
                String::from_str("#004040"),
                String::from_str("#606060"),
            ],
        };
        assert(c.normal@.map_values(|s: String| s@) =~= seq![
            "#000000"@,
            "#800000"@,
            "#008000"@,
            "#808000"@,
            "#000080"@,
            "#800080"@,
            "#008080"@,
            "#c0c0c0"@,
        ]);
        assert(c.bright@.map_values(|s: String| s@) =~= seq![
            "#808080"@,
            "#ff0000"@,
            "#00ff00"@,
            "#ffff00"@,
            "#0000ff"@,
            "#ff00ff"@,
            "#00ffff"@,
            "#ffffff"@,
        ]);
        assert(c.dim@.map_values(|s: String| s@) =~= seq![
            "#000000"@,
            "#400000"@,
            "#004000"@,
            "#404000"@,
            "#000040"@,
            "#400040"@,
            "#004040"@,
            "#606060"@,
        ]);
        c
    }
}

/// Key bindings of the host application, each written like `Ctrl+Shift+C`.
#[derive(Clone, Debug)]
pub struct KeybindingConfig {
    pub copy: String,
    pub paste: String,
    pub search: String,
    pub new_tab: String,
    pub close_tab: String,
    pub next_tab: String,
    pub prev_tab: String,
}

impl Default for KeybindingConfig {
    fn default() -> (c: KeybindingConfig)
        ensures
            c.copy@ == "Ctrl+Shift+C"@,
            c.paste@ == "Ctrl+Shift+V"@,
            c.search@ == "Ctrl+Shift+F"@,
            c.new_tab@ == "Ctrl+Shift+T"@,
            c.close_tab@ == "Ctrl+Shift+W"@,
            c.next_tab@ == "Ctrl+Tab"@,
            c.prev_tab@ == "Ctrl+Shift+Tab"@,
    {
        KeybindingConfig {
            copy: String::from_str("Ctrl+Shift+C"),
            paste: String::from_str("Ctrl+Shift+V"),
            search: String::from_str("Ctrl+Shift+F"),
            new_tab: String::from_str("Ctrl+Shift+T"),
            close_tab: String::from_str("Ctrl+Shift+W"),
            next_tab: String::from_str("Ctrl+Tab"),
            prev_tab: String::from_str("Ctrl+Shift+Tab"),
        }
    }
}

} // verus!
