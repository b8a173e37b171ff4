use vstd::prelude::*;
use vstd::string::*;
use crate::text::{ascii_lower_char, is_ascii_text, lower_of, lowercase, push_char};

verus! {

/// A key without its modifiers.
#[derive(Clone, Copy, Debug, PartialEq, Eq, Structural)]
pub enum KeyCode {
    Char(char),
    Enter,
    Tab,
    Backspace,
    Delete,
    Insert,
    Home,
    End,
    PageUp,
    PageDown,
    Up,
    Down,
    Left,
    Right,
    F(u8),
    Escape,
    CapsLock,
    ScrollLock,
    NumLock,
    PrintScreen,
    Pause,
    Menu,
}

pub const SHIFT_BIT: u8 = 0x01;
pub const CTRL_BIT: u8 = 0x02;
pub const ALT_BIT: u8 = 0x04;
pub const SUPER_BIT: u8 = 0x08;

/// A set of modifier keys, one bit each.
#[derive(Clone, Copy, Debug, PartialEq, Eq, Structural)]
pub struct Modifiers {
    pub bits: u8,
}

impl View for Modifiers {
    type V = u8;

    open spec fn view(&self) -> u8 {
        self.bits
    }
}

/// Whether the bit set `m` holds every bit of `bit`.
pub open spec fn has(m: u8, bit: u8) -> bool {
    m & bit == bit
}

impl Modifiers {
    pub fn empty() -> (m: Modifiers)
        ensures
            m@ == 0,
    {
        Modifiers { bits: 0 }
    }

    pub fn shift() -> (m: Modifiers)
        ensures
            m@ == SHIFT_BIT,
    {
        Modifiers { bits: SHIFT_BIT }
    }

    pub fn ctrl() -> (m: Modifiers)
        ensures
            m@ == CTRL_BIT,
    {
        Modifiers { bits: CTRL_BIT }
    }

    pub fn alt() -> (m: Modifiers)
        ensures
            m@ == ALT_BIT,
    {
        Modifiers { bits: ALT_BIT }
    }

    pub fn super_key() -> (m: Modifiers)
        ensures
            m@ == SUPER_BIT,
    {
        Modifiers { bits: SUPER_BIT }
    }

    pub fn bits(&self) -> (b: u8)
        ensures
            b == self@,
    {
        self.bits
    }

    pub fn is_empty(&self) -> (r: bool)
        ensures
            r == (self@ == 0),
    {
        self.bits == 0
    }

    /// Whether every modifier of `other` is in this set.
    pub fn contains(&self, other: Modifiers) -> (r: bool)
        ensures
            r == has(self@, other@),
    {
        self.bits & other.bits == other.bits
    }

    pub fn insert(&mut self, other: Modifiers)
        ensures
            final(self)@ == old(self)@ | other@,
    {
        self.bits = self.bits | other.bits;
    }

    pub fn remove(&mut self, other: Modifiers)
        ensures
            final(self)@ == old(self)@ & !other@,
    {
        self.bits = self.bits & !other.bits;
    }
}

impl core::ops::BitOr for Modifiers {
    type Output = Modifiers;

    fn bitor(self, rhs: Modifiers) -> (r: Modifiers)
        ensures
            r@ == self@ | rhs@,
    {
        Modifiers { bits: self.bits | rhs.bits }
    }
}

impl vstd::std_specs::ops::BitOrSpecImpl for Modifiers {
    open spec fn obeys_bitor_spec() -> bool {
        true
    }

    open spec fn bitor_req(self, rhs: Modifiers) -> bool {
        true
    }

    open spec fn bitor_spec(self, rhs: Modifiers) -> Modifiers {
        Modifiers { bits: self.bits | rhs.bits }
    }
}

/// A key with the modifiers held down with it.
#[derive(Clone, Copy, Debug, PartialEq, Eq, Structural)]
pub struct Key {
    pub code: KeyCode,
    pub modifiers: Modifiers,
}

/// The UTF-8 encoding of `c`.
pub open spec fn utf8_of(c: char) -> Seq<u8> {
    vstd::utf8::encode_scalar(c as u32)
}

/// `ESC [` followed by `tail`.
pub open spec fn csi_seq(tail: Seq<u8>) -> Seq<u8> {
    seq![0x1bu8, 0x5bu8] + tail
}

/// The bytes sent for a character key: with Ctrl a letter gives its control code and
/// `@ [ \ ] ^ _ ?` give 0x00, 0x1B to 0x1F and 0x7F; with Alt (and no Ctrl) the character comes
/// after an ESC; otherwise the character itself.
pub open spec fn char_bytes(c: char, m: u8) -> Seq<u8> {
    if has(m, CTRL_BIT) {
        let l = ascii_lower_char(c);
        if 'a' <= l <= 'z' {
            seq![(l as u32 - 'a' as u32 + 1) as u8]
        } else if l == '@' {
            seq![0u8]
        } else if l == '[' {
            seq![0x1bu8]
        } else if l == '\\' {
            seq![0x1cu8]
        } else if l == ']' {
            seq![0x1du8]
        } else if l == '^' {
            seq![0x1eu8]
        } else if l == '_' {
            seq![0x1fu8]
        } else if l == '?' {
            seq![0x7fu8]
        } else {
            utf8_of(c)
        }
    } else if has(m, ALT_BIT) {
        seq![0x1bu8] + utf8_of(c)
    } else {
        utf8_of(c)
    }
}

/// An arrow key: `CSI 1;5 d` with Ctrl, `CSI 1;2 d` with Shift, else `CSI d`.
pub open spec fn arrow_bytes(d: u8, m: u8) -> Seq<u8> {
    if has(m, CTRL_BIT) {
        csi_seq(seq![0x31u8, 0x3bu8, 0x35u8, d])
    } else if has(m, SHIFT_BIT) {
        csi_seq(seq![0x31u8, 0x3bu8, 0x32u8, d])
    } else {
        csi_seq(seq![d])
    }
}

/// Home or End: `CSI 1;5 d` with Ctrl, else `CSI d`.
pub open spec fn home_end_bytes(d: u8, m: u8) -> Seq<u8> {
    if has(m, CTRL_BIT) {
        csi_seq(seq![0x31u8, 0x3bu8, 0x35u8, d])
    } else {
        csi_seq(seq![d])
    }
}

/// The function keys: F1 to F4 as `ESC O P` to `ESC O S`, F5 to F12 as `CSI n ~`; others send
/// nothing.
pub open spec fn function_key_bytes(n: u8) -> Seq<u8> {
    if n == 1 {
        seq![0x1bu8, 0x4fu8, 0x50u8]
    } else if n == 2 {
        seq![0x1bu8, 0x4fu8, 0x51u8]
    } else if n == 3 {
        seq![0x1bu8, 0x4fu8, 0x52u8]
    } else if n == 4 {
        seq![0x1bu8, 0x4fu8, 0x53u8]
    } else if n == 5 {
        csi_seq(seq![0x31u8, 0x35u8, 0x7eu8])
    } else if n == 6 {
        csi_seq(seq![0x31u8, 0x37u8, 0x7eu8])
    } else if n == 7 {
        csi_seq(seq![0x31u8, 0x38u8, 0x7eu8])
    } else if n == 8 {
        csi_seq(seq![0x31u8, 0x39u8, 0x7eu8])
    } else if n == 9 {
        csi_seq(seq![0x32u8, 0x30u8, 0x7eu8])
    } else if n == 10 {
        csi_seq(seq![0x32u8, 0x31u8, 0x7eu8])
    } else if n == 11 {
        csi_seq(seq![0x32u8, 0x33u8, 0x7eu8])
    } else if n == 12 {
        csi_seq(seq![0x32u8, 0x34u8, 0x7eu8])
    } else {
        Seq::empty()
    }
}

/// The bytes that a key sends to the shell; keys without a sequence send nothing.
pub open spec fn key_bytes(k: Key) -> Seq<u8> {
    let m = k.modifiers.bits;
    match k.code {
        KeyCode::Char(c) => char_bytes(c, m),
        KeyCode::Enter => seq![0x0du8],
        KeyCode::Tab => seq![0x09u8],
        KeyCode::Backspace => seq![0x7fu8],
        KeyCode::Delete => csi_seq(seq![0x33u8, 0x7eu8]),
        KeyCode::Insert => csi_seq(seq![0x32u8, 0x7eu8]),
        KeyCode::Home => home_end_bytes(0x48, m),
        KeyCode::End => home_end_bytes(0x46, m),
        KeyCode::PageUp => csi_seq(seq![0x35u8, 0x7eu8]),
        KeyCode::PageDown => csi_seq(seq![0x36u8, 0x7eu8]),
        KeyCode::Up => arrow_bytes(0x41, m),
        KeyCode::Down => arrow_bytes(0x42, m),
        KeyCode::Right => arrow_bytes(0x43, m),
        KeyCode::Left => arrow_bytes(0x44, m),
        KeyCode::F(n) => function_key_bytes(n),
        KeyCode::Escape => seq![0x1bu8],
        _ => Seq::empty(),
    }
}

/// The UTF-8 encoding of `c`.
pub fn encode_char(c: char) -> (r: Vec<u8>)
    ensures
        r@ == utf8_of(c),
{
    let s = c as u32;
    let mut r: Vec<u8> = Vec::new();
    if s <= 0x7f {
        r.push((s & 0x7f) as u8);
    } else if s <= 0x7ff {
        r.push(0xc0 | ((s >> 6) & 0x1f) as u8);
        r.push(0x80 | (s & 0x3f) as u8);
    } else if s <= 0xffff {
        r.push(0xe0 | ((s >> 12) & 0x0f) as u8);
        r.push(0x80 | ((s >> 6) & 0x3f) as u8);
        r.push(0x80 | (s & 0x3f) as u8);
    } else {
        r.push(0xf0 | ((s >> 18) & 0x7) as u8);
        r.push(0x80 | ((s >> 12) & 0x3f) as u8);
        r.push(0x80 | ((s >> 6) & 0x3f) as u8);
        r.push(0x80 | (s & 0x3f) as u8);
    }
    assert(r@ =~= utf8_of(c));
    r
}

fn ascii_lower(c: char) -> (r: char)
    ensures
        r == ascii_lower_char(c),
{
    if 'A' <= c && c <= 'Z' {
        ((c as u8) + 32) as char
    } else {
        c
    }
}

fn csi_vec(tail: &[u8]) -> (r: Vec<u8>)
    ensures
        r@ == csi_seq(tail@),
{
    let mut r: Vec<u8> = Vec::new();
    r.push(0x1b);
    r.push(0x5b);
    let mut i: usize = 0;
    while i < tail.len()
        invariant
            i <= tail@.len(),
            r@ == csi_seq(tail@.subrange(0, i as int)),
        decreases tail@.len() - i,
    {
        r.push(tail[i]);
        i = i + 1;
        assert(r@ =~= csi_seq(tail@.subrange(0, i as int)));
    }
    assert(tail@.subrange(0, tail@.len() as int) =~= tail@);
    r
}

fn one_byte(b: u8) -> (r: Vec<u8>)
    ensures
        r@ == seq![b],
{
    let mut r: Vec<u8> = Vec::new();
    r.push(b);
    assert(r@ =~= seq![b]);
    r
}

fn char_bytes_exec(c: char, m: Modifiers) -> (r: Vec<u8>)
    ensures
        r@ == char_bytes(c, m@),
{
    if m.contains(Modifiers::ctrl()) {
        let l = ascii_lower(c);
        if 'a' <= l && l <= 'z' {
            one_byte((l as u32 - 'a' as u32 + 1) as u8)
        } else if l == '@' {
            one_byte(0)
        } else if l == '[' {
            one_byte(0x1b)
        } else if l == '\\' {
            one_byte(0x1c)
        } else if l == ']' {
            one_byte(0x1d)
        } else if l == '^' {
            one_byte(0x1e)
        } else if l == '_' {
            one_byte(0x1f)
        } else if l == '?' {
            one_byte(0x7f)
        } else {
            encode_char(c)
        }
    } else if m.contains(Modifiers::alt()) {
        let mut r = one_byte(0x1b);
        let mut e = encode_char(c);
        r.append(&mut e);
        r
    } else {
        encode_char(c)
    }
}

fn arrow_vec(d: u8, m: Modifiers) -> (r: Vec<u8>)
    ensures
        r@ == arrow_bytes(d, m@),
{
    if m.contains(Modifiers::ctrl()) {
        csi_vec(&[0x31, 0x3b, 0x35, d])
    } else if m.contains(Modifiers::shift()) {
        csi_vec(&[0x31, 0x3b, 0x32, d])
    } else {
        csi_vec(&[d])
    }
}

fn home_end_vec(d: u8, m: Modifiers) -> (r: Vec<u8>)
    ensures
        r@ == home_end_bytes(d, m@),
{
    if m.contains(Modifiers::ctrl()) {
        csi_vec(&[0x31, 0x3b, 0x35, d])
    } else {
        csi_vec(&[d])
    }
}

fn function_key_vec(n: u8) -> (r: Vec<u8>)
    ensures
        r@ == function_key_bytes(n),
{
    if 1 <= n && n <= 4 {
        let mut r = one_byte(0x1b);
        r.push(0x4f);
        r.push(0x4f + n);
        assert(r@ =~= function_key_bytes(n));
        r
    } else if n == 5 {
        csi_vec(&[0x31, 0x35, 0x7e])
    } else if n == 6 {
        csi_vec(&[0x31, 0x37, 0x7e])
    } else if n == 7 {
        csi_vec(&[0x31, 0x38, 0x7e])
    } else if n == 8 {
        csi_vec(&[0x31, 0x39, 0x7e])
    } else if n == 9 {
        csi_vec(&[0x32, 0x30, 0x7e])
    } else if n == 10 {
        csi_vec(&[0x32, 0x31, 0x7e])
    } else if n == 11 {
        csi_vec(&[0x32, 0x33, 0x7e])
    } else if n == 12 {
        csi_vec(&[0x32, 0x34, 0x7e])
    } else {
        Vec::new()
    }
}

impl Key {
    pub fn new(code: KeyCode, modifiers: Modifiers) -> (k: Key)
        ensures
            k == (Key { code, modifiers }),
    {
        Key { code, modifiers }
    }

    /// A character key without modifiers.
    pub fn char(c: char) -> (k: Key)
        ensures
            k == (Key { code: KeyCode::Char(c), modifiers: Modifiers { bits: 0 } }),
    {
        Key::new(KeyCode::Char(c), Modifiers::empty())
    }

    /// A character key with Ctrl.
    pub fn ctrl(c: char) -> (k: Key)
        ensures
            k == (Key { code: KeyCode::Char(c), modifiers: Modifiers { bits: CTRL_BIT } }),
    {
        Key::new(KeyCode::Char(c), Modifiers::ctrl())
    }

    /// A character key with Alt.
    pub fn alt(c: char) -> (k: Key)
        ensures
            k == (Key { code: KeyCode::Char(c), modifiers: Modifiers { bits: ALT_BIT } }),
    {
        Key::new(KeyCode::Char(c), Modifiers::alt())
    }

    /// A character key with Shift.
    pub fn shift(c: char) -> (k: Key)
        ensures
            k == (Key { code: KeyCode::Char(c), modifiers: Modifiers { bits: SHIFT_BIT } }),
    {
        Key::new(KeyCode::Char(c), Modifiers::shift())
    }

    /// The bytes this key sends to the shell.
    pub fn to_bytes(&self) -> (r: Vec<u8>)
        ensures
            r@ == key_bytes(*self),
    {
        let m = self.modifiers;
        match self.code {
            KeyCode::Char(c) => char_bytes_exec(c, m),
            KeyCode::Enter => one_byte(0x0d),
            KeyCode::Tab => one_byte(0x09),
            KeyCode::Backspace => one_byte(0x7f),
            KeyCode::Delete => csi_vec(&[0x33, 0x7e]),
            KeyCode::Insert => csi_vec(&[0x32, 0x7e]),
            KeyCode::Home => home_end_vec(0x48, m),
            KeyCode::End => home_end_vec(0x46, m),
            KeyCode::PageUp => csi_vec(&[0x35, 0x7e]),
            KeyCode::PageDown => csi_vec(&[0x36, 0x7e]),
            KeyCode::Up => arrow_vec(0x41, m),
            KeyCode::Down => arrow_vec(0x42, m),
            KeyCode::Right => arrow_vec(0x43, m),
            KeyCode::Left => arrow_vec(0x44, m),
            KeyCode::F(n) => function_key_vec(n),
            KeyCode::Escape => one_byte(0x1b),
            _ => Vec::new(),
        }
    }
}

/// The decimal digits of `n`.
pub open spec fn decimal(n: u8) -> Seq<char> {
    if n < 10 {
        seq![(n + 48) as char]
    } else if n < 100 {
        seq![(n / 10 + 48) as char, (n % 10 + 48) as char]
    } else {
        seq![(n / 100 + 48) as char, ((n / 10) % 10 + 48) as char, (n % 10 + 48) as char]
    }
}

/// The name of a key as a binding writes it.
pub open spec fn key_name(code: KeyCode) -> Seq<char> {
    match code {
        KeyCode::Char(c) => seq![c],
        KeyCode::Enter => "Enter"@,
        KeyCode::Tab => "Tab"@,
        KeyCode::Backspace => "Backspace"@,
        KeyCode::Delete => "Delete"@,
        KeyCode::Insert => "Insert"@,
        KeyCode::Home => "Home"@,
        KeyCode::End => "End"@,
        KeyCode::PageUp => "PageUp"@,
        KeyCode::PageDown => "PageDown"@,
        KeyCode::Up => "Up"@,
        KeyCode::Down => "Down"@,
        KeyCode::Left => "Left"@,
        KeyCode::Right => "Right"@,
        KeyCode::F(n) => seq!['F'] + decimal(n),
        KeyCode::Escape => "Escape"@,
        KeyCode::CapsLock => "CapsLock"@,
        KeyCode::ScrollLock => "ScrollLock"@,
        KeyCode::NumLock => "NumLock"@,
        KeyCode::PrintScreen => "PrintScreen"@,
        KeyCode::Pause => "Pause"@,
        KeyCode::Menu => "Menu"@,
    }
}

/// `text` when `on`, else nothing.
pub open spec fn part_if(on: bool, text: Seq<char>) -> Seq<char> {
    if on {
        text
    } else {
        Seq::empty()
    }
}

/// The modifiers as a binding writes them: `Ctrl+`, `Alt+`, `Shift+`, `Super+`, in that order.
pub open spec fn modifier_prefix(m: u8) -> Seq<char> {
    part_if(has(m, CTRL_BIT), "Ctrl+"@) + part_if(has(m, ALT_BIT), "Alt+"@) + part_if(
        has(m, SHIFT_BIT),
        "Shift+"@,
    ) + part_if(has(m, SUPER_BIT), "Super+"@)
}

/// A key written as a binding, such as `Ctrl+Shift+F1`.
pub open spec fn key_text(k: Key) -> Seq<char> {
    modifier_prefix(k.modifiers.bits) + key_name(k.code)
}

fn append_if(s: &mut String, on: bool, text: &str)
    ensures
        final(s)@ == old(s)@ + part_if(on, text@),
{
    if on {
        s.append(text);
    } else {
        assert(s@ =~= s@ + part_if(on, text@));
    }
}

fn push_decimal(s: &mut String, n: u8)
    ensures
        final(s)@ == old(s)@ + decimal(n),
{
    if n < 10 {
        push_char(s, (n + 48) as char);
    } else if n < 100 {
        push_char(s, (n / 10 + 48) as char);
        push_char(s, (n % 10 + 48) as char);
    } else {
        push_char(s, (n / 100 + 48) as char);
        push_char(s, ((n / 10) % 10 + 48) as char);
        push_char(s, (n % 10 + 48) as char);
    }
    assert(s@ =~= old(s)@ + decimal(n));
}

impl Key {
    /// The key written as a binding, such as `Ctrl+Shift+F1`.
    pub fn to_string(&self) -> (r: String)
        ensures
            r@ == key_text(*self),
    {
        let m = self.modifiers;
        let mut s = String::new();
        append_if(&mut s, m.contains(Modifiers::ctrl()), "Ctrl+");
        append_if(&mut s, m.contains(Modifiers::alt()), "Alt+");
        append_if(&mut s, m.contains(Modifiers::shift()), "Shift+");
        append_if(&mut s, m.contains(Modifiers::super_key()), "Super+");
        let ghost prefix = s@;
        match self.code {
            KeyCode::Char(c) => push_char(&mut s, c),
            KeyCode::Enter => s.append("Enter"),
            KeyCode::Tab => s.append("Tab"),
            KeyCode::Backspace => s.append("Backspace"),
            KeyCode::Delete => s.append("Delete"),
            KeyCode::Insert => s.append("Insert"),
            KeyCode::Home => s.append("Home"),
            KeyCode::End => s.append("End"),
            KeyCode::PageUp => s.append("PageUp"),
            KeyCode::PageDown => s.append("PageDown"),
            KeyCode::Up => s.append("Up"),
            KeyCode::Down => s.append("Down"),
            KeyCode::Left => s.append("Left"),
            KeyCode::Right => s.append("Right"),
            KeyCode::F(n) => {
                push_char(&mut s, 'F');
                push_decimal(&mut s, n);
            },
            KeyCode::Escape => s.append("Escape"),
            KeyCode::CapsLock => s.append("CapsLock"),
            KeyCode::ScrollLock => s.append("ScrollLock"),
            KeyCode::NumLock => s.append("NumLock"),
            KeyCode::PrintScreen => s.append("PrintScreen"),
            KeyCode::Pause => s.append("Pause"),
            KeyCode::Menu => s.append("Menu"),
        }
        assert(prefix == modifier_prefix(self.modifiers.bits));
        assert(s@ =~= prefix + key_name(self.code));
        s
    }
}

/// What a lower-cased word of a binding stands for.
#[derive(Clone, Copy, Debug, PartialEq, Eq, Structural)]
pub enum BindingToken {
    /// A modifier, as its bit.
    Modifier(u8),
    /// A key.
    Code(KeyCode),
    /// No known word.
    Unknown,
}

/// Why a binding was refused.
#[derive(Clone, Copy, Debug, PartialEq, Eq, Structural)]
pub enum KeyBindingError {
    /// A word that names neither a modifier nor a key.
    UnknownToken,
    /// Only modifiers, no key.
    MissingKey,
}

/// The words of `s` between `+` signs, empty ones included.
pub open spec fn split_plus(s: Seq<char>) -> Seq<Seq<char>>
    decreases s.len(),
{
    if s.len() == 0 {
        seq![Seq::empty()]
    } else {
        let p = split_plus(s.drop_last());
        if s.last() == '+' {
            p.push(Seq::empty())
        } else {
            p.update(p.len() - 1, p.last().push(s.last()))
        }
    }
}

pub open spec fn all_digits(ds: Seq<char>) -> bool {
    forall|i: int| 0 <= i < ds.len() ==> '0' <= #[trigger] ds[i] <= '9'
}

/// The number that the decimal digits `ds` write.
pub open spec fn dec_value(ds: Seq<char>) -> nat
    decreases ds.len(),
{
    if ds.len() == 0 {
        0
    } else {
        dec_value(ds.drop_last()) * 10 + (ds.last() as u32 - 48) as nat
    }
}

/// What a lower-cased word stands for: a modifier name, a key name, `f` and the number of a
/// function key from 1 to 12, or a single ASCII character.
pub open spec fn classify(t: Seq<char>) -> BindingToken {
    if t == "ctrl"@ {
        BindingToken::Modifier(CTRL_BIT)
    } else if t == "alt"@ {
        BindingToken::Modifier(ALT_BIT)
    } else if t == "shift"@ {
        BindingToken::Modifier(SHIFT_BIT)
    } else if t == "super"@ || t == "cmd"@ {
        BindingToken::Modifier(SUPER_BIT)
    } else if t == "enter"@ {
        BindingToken::Code(KeyCode::Enter)
    } else if t == "tab"@ {
        BindingToken::Code(KeyCode::Tab)
    } else if t == "backspace"@ {
        BindingToken::Code(KeyCode::Backspace)
    } else if t == "delete"@ {
        BindingToken::Code(KeyCode::Delete)
    } else if t == "insert"@ {
        BindingToken::Code(KeyCode::Insert)
    } else if t == "home"@ {
        BindingToken::Code(KeyCode::Home)
    } else if t == "end"@ {
        BindingToken::Code(KeyCode::End)
    } else if t == "pageup"@ {
        BindingToken::Code(KeyCode::PageUp)
    } else if t == "pagedown"@ {
        BindingToken::Code(KeyCode::PageDown)
    } else if t == "up"@ {
        BindingToken::Code(KeyCode::Up)
    } else if t == "down"@ {
        BindingToken::Code(KeyCode::Down)
    } else if t == "left"@ {
        BindingToken::Code(KeyCode::Left)
    } else if t == "right"@ {
        BindingToken::Code(KeyCode::Right)
    } else if t == "escape"@ {
        BindingToken::Code(KeyCode::Escape)
    } else if t.len() > 1 && t[0] == 'f' {
        let ds = t.drop_first();
        if all_digits(ds) && 1 <= dec_value(ds) <= 12 {
            BindingToken::Code(KeyCode::F(dec_value(ds) as u8))
        } else {
            BindingToken::Unknown
        }
    } else if t.len() == 1 && (t[0] as u32) < 0x80 {
        BindingToken::Code(KeyCode::Char(t[0]))
    } else {
        BindingToken::Unknown
    }
}

/// A word lower-cased: by `str::to_lowercase`, or, for `ascii`, by mapping `A`-`Z` alone.
pub open spec fn lowered(w: Seq<char>, ascii: bool) -> Seq<char> {
    if ascii {
        w.map_values(|c: char| ascii_lower_char(c))
    } else {
        lower_of(w)
    }
}

/// The modifiers and the last key named by the first `n` words, each lower-cased; an unknown
/// word refuses the binding.
pub open spec fn parse_words(words: Seq<Seq<char>>, n: nat, ascii: bool) -> Result<
    (u8, Option<KeyCode>),
    KeyBindingError,
>
    decreases n,
{
    if n == 0 {
        Ok((0u8, None))
    } else {
        match parse_words(words, (n - 1) as nat, ascii) {
            Err(e) => Err(e),
            Ok((m, code)) => match classify(lowered(words[n - 1], ascii)) {
                BindingToken::Modifier(b) => Ok((m | b, code)),
                BindingToken::Code(k) => Ok((m, Some(k))),
                BindingToken::Unknown => Err(KeyBindingError::UnknownToken),
            },
        }
    }
}

/// A binding such as `Ctrl+Shift+F1`: words between `+` signs, any case, modifiers in any
/// order; the last key named wins.
pub open spec fn parse_binding_with(s: Seq<char>, ascii: bool) -> Result<Key, KeyBindingError> {
    let words = split_plus(s);
    match parse_words(words, words.len(), ascii) {
        Err(e) => Err(e),
        Ok((m, None)) => Err(KeyBindingError::MissingKey),
        Ok((m, Some(k))) => Ok(Key { code: k, modifiers: Modifiers { bits: m } }),
    }
}

/// The binding that `s` writes, words lower-cased by `str::to_lowercase`.
pub open spec fn parse_binding(s: Seq<char>) -> Result<Key, KeyBindingError> {
    parse_binding_with(s, false)
}

/// Whether `a` and `b` hold the same characters.
fn same_text(a: &str, b: &str) -> (r: bool)
    ensures
        r == (a@ == b@),
{
    let n = a.unicode_len();
    if n != b.unicode_len() {
        return false;
    }
    let mut i: usize = 0;
    while i < n
        invariant
            n == a@.len() == b@.len(),
            i <= n,
            forall|k: int| 0 <= k < i ==> a@[k] == b@[k],
        decreases n - i,
    {
        if a.get_char(i) != b.get_char(i) {
            return false;
        }
        i = i + 1;
    }
    assert(a@ =~= b@);
    true
}

proof fn lemma_dec_value_grows(ds: Seq<char>, k: int)
    requires
        0 <= k <= ds.len(),
        all_digits(ds),
    ensures
        dec_value(ds.subrange(0, k)) <= dec_value(ds),
    decreases ds.len() - k,
{
    if k < ds.len() {
        lemma_dec_value_grows(ds, k + 1);
        assert(ds.subrange(0, k + 1).drop_last() =~= ds.subrange(0, k));
    } else {
        assert(ds.subrange(0, k) =~= ds);
    }
}

/// The function key that `f` followed by `t[1..]` names, if any.
fn function_key_number(t: &str) -> (r: Option<u8>)
    requires
        t@.len() > 1,
    ensures
        r == (if all_digits(t@.drop_first()) && 1 <= dec_value(t@.drop_first()) <= 12 {
            Some(dec_value(t@.drop_first()) as u8)
        } else {
            None
        }),
{
    let ghost ds = t@.drop_first();
    let n = t.unicode_len();
    let mut value: u32 = 0;
    let mut i: usize = 1;
    while i < n
        invariant
            n == t@.len(),
            1 <= i <= n,
            ds == t@.drop_first(),
            value <= 12,
            all_digits(ds.subrange(0, i - 1)),
            value == dec_value(ds.subrange(0, i - 1)),
        decreases n - i,
    {
        let c = t.get_char(i);
        assert(ds.subrange(0, i as int).drop_last() =~= ds.subrange(0, i - 1));
        if c < '0' || c > '9' {
            assert(!all_digits(ds)) by {
                assert(ds[i - 1] == c);
            }
            return None;
        }
        value = value * 10 + (c as u32 - 48);
        assert(all_digits(ds.subrange(0, i as int))) by {
            assert forall|k: int| 0 <= k < i implies '0' <= #[trigger] ds.subrange(0, i as int)[k]
                <= '9' by {
                if k < i - 1 {
                    assert(ds.subrange(0, i as int)[k] == ds.subrange(0, i - 1)[k]);
                }
            }
        }
        if value > 12 {
            proof {
                if all_digits(ds) {
                    lemma_dec_value_grows(ds, i as int);
                }
            }
            return None;
        }
        i = i + 1;
    }
    assert(ds.subrange(0, n - 1) =~= ds);
    if value >= 1 {
        Some(value as u8)
    } else {
        None
    }
}

/// What a lower-cased word of a binding stands for.
pub fn classify_token(t: &str) -> (r: BindingToken)
    ensures
        r == classify(t@),
{
    if same_text(t, "ctrl") {
        BindingToken::Modifier(CTRL_BIT)
    } else if same_text(t, "alt") {
        BindingToken::Modifier(ALT_BIT)
    } else if same_text(t, "shift") {
        BindingToken::Modifier(SHIFT_BIT)
    } else if same_text(t, "super") || same_text(t, "cmd") {
        BindingToken::Modifier(SUPER_BIT)
    } else if same_text(t, "enter") {
        BindingToken::Code(KeyCode::Enter)
    } else if same_text(t, "tab") {
        BindingToken::Code(KeyCode::Tab)
    } else if same_text(t, "backspace") {
        BindingToken::Code(KeyCode::Backspace)
    } else if same_text(t, "delete") {
        BindingToken::Code(KeyCode::Delete)
    } else if same_text(t, "insert") {
        BindingToken::Code(KeyCode::Insert)
    } else if same_text(t, "home") {
        BindingToken::Code(KeyCode::Home)
    } else if same_text(t, "end") {
        BindingToken::Code(KeyCode::End)
    } else if same_text(t, "pageup") {
        BindingToken::Code(KeyCode::PageUp)
    } else if same_text(t, "pagedown") {
        BindingToken::Code(KeyCode::PageDown)
    } else if same_text(t, "up") {
        BindingToken::Code(KeyCode::Up)
    } else if same_text(t, "down") {
        BindingToken::Code(KeyCode::Down)
    } else if same_text(t, "left") {
        BindingToken::Code(KeyCode::Left)
    } else if same_text(t, "right") {
        BindingToken::Code(KeyCode::Right)
    } else if same_text(t, "escape") {
        BindingToken::Code(KeyCode::Escape)
    } else {
        let n = t.unicode_len();
        if n > 1 && t.get_char(0) == 'f' {
            match function_key_number(t) {
                Some(k) => BindingToken::Code(KeyCode::F(k)),
                None => BindingToken::Unknown,
            }
        } else if n == 1 && (t.get_char(0) as u32) < 0x80 {
            BindingToken::Code(KeyCode::Char(t.get_char(0)))
        } else {
            BindingToken::Unknown
        }
    }
}

/// The words of `s` between `+` signs.
fn split_words(s: &str) -> (r: Vec<String>)
    ensures
        r@.map_values(|w: String| w@) == split_plus(s@),
{
    let n = s.unicode_len();
    let mut words: Vec<String> = Vec::new();
    words.push(String::new());
    let mut i: usize = 0;
    while i < n
        invariant
            n == s@.len(),
            i <= n,
            words@.len() >= 1,
            words@.map_values(|w: String| w@) == split_plus(s@.subrange(0, i as int)),
        decreases n - i,
    {
        let c = s.get_char(i);
        let ghost before = words@.map_values(|w: String| w@);
        assert(s@.subrange(0, i + 1).drop_last() =~= s@.subrange(0, i as int));
        if c == '+' {
            words.push(String::new());
            assert(words@.map_values(|w: String| w@) =~= before.push(Seq::empty()));
        } else {
            let last = words.len() - 1;
            push_char(&mut words[last], c);
            assert(words@.map_values(|w: String| w@) =~= before.update(
                before.len() - 1,
                before.last().push(c),
            ));
        }
        i = i + 1;
    }
    assert(s@.subrange(0, n as int) =~= s@);
    words
}

proof fn lemma_refusal_stays(words: Seq<Seq<char>>, j: nat, n: nat, ascii: bool)
    requires
        j <= n,
        parse_words(words, j, ascii) is Err,
    ensures
        parse_words(words, n, ascii) == parse_words(words, j, ascii),
    decreases n - j,
{
    if j < n {
        lemma_refusal_stays(words, j, (n - 1) as nat, ascii);
    }
}

proof fn lemma_split_len(s: Seq<char>)
    ensures
        split_plus(s).len() >= 1,
    decreases s.len(),
{
    if s.len() > 0 {
        lemma_split_len(s.drop_last());
    }
}

/// The words of ASCII text are ASCII.
proof fn lemma_split_ascii(s: Seq<char>)
    requires
        is_ascii_text(s),
    ensures
        forall|i: int| 0 <= i < split_plus(s).len() ==> is_ascii_text(#[trigger] split_plus(s)[i]),
    decreases s.len(),
{
    if s.len() > 0 {
        let t = s.drop_last();
        assert(is_ascii_text(t)) by {
            assert forall|i: int| 0 <= i < t.len() implies (#[trigger] t[i]) as u32 <= 0x7f by {
                assert(t[i] == s[i]);
            }
        }
        lemma_split_ascii(t);
        lemma_split_len(t);
        let p = split_plus(t);
        assert(s.last() as u32 <= 0x7f);
        assert forall|i: int| 0 <= i < split_plus(s).len() implies is_ascii_text(
            #[trigger] split_plus(s)[i],
        ) by {
            if s.last() != '+' && i == p.len() - 1 {
                let w = p.last().push(s.last());
                assert forall|j: int| 0 <= j < w.len() implies (#[trigger] w[j]) as u32 <= 0x7f by {
                    if j < p.last().len() {
                        assert(w[j] == p.last()[j]);
                        assert(is_ascii_text(p[p.len() - 1]));
                    }
                }
            }
        }
    }
}

/// Parses a binding such as `Ctrl+Shift+F1`.
pub fn parse_key_binding(s: &str) -> (r: Result<Key, KeyBindingError>)
    ensures
        r == parse_binding(s@),
        is_ascii_text(s@) ==> r == parse_binding_with(s@, true),
{
    let words = split_words(s);
    let ghost ws = words@.map_values(|w: String| w@);
    let mut mods: u8 = 0;
    let mut code: Option<KeyCode> = None;
    let mut i: usize = 0;
    while i < words.len()
        invariant
            i <= words@.len(),
            ws == words@.map_values(|w: String| w@),
            ws == split_plus(s@),
            parse_words(ws, i as nat, false) == Ok::<(u8, Option<KeyCode>), KeyBindingError>((mods, code)),
            is_ascii_text(s@) ==> parse_words(ws, i as nat, true) == Ok::<
                (u8, Option<KeyCode>),
                KeyBindingError,
            >((mods, code)),
        decreases words@.len() - i,
    {
        let lowered = lowercase(words[i].as_str());
        assert(ws[i as int] == words@[i as int]@);
        proof {
            if is_ascii_text(s@) {
                lemma_split_ascii(s@);
                assert(is_ascii_text(ws[i as int]));
            }
        }
        match classify_token(lowered.as_str()) {
            BindingToken::Modifier(b) => {
                mods = mods | b;
            },
            BindingToken::Code(k) => {
                code = Some(k);
            },
            BindingToken::Unknown => {
                proof {
                    assert(classify(lower_of(ws[i as int])) == BindingToken::Unknown);
                    assert(parse_words(ws, (i + 1) as nat, false) == Err::<(u8, Option<KeyCode>), KeyBindingError>(KeyBindingError::UnknownToken));
                    lemma_refusal_stays(ws, (i + 1) as nat, ws.len(), false);
                    if is_ascii_text(s@) {
                        assert(parse_words(ws, (i + 1) as nat, true) == Err::<(u8, Option<KeyCode>), KeyBindingError>(KeyBindingError::UnknownToken));
                        lemma_refusal_stays(ws, (i + 1) as nat, ws.len(), true);
                    }
                }
                return Err(KeyBindingError::UnknownToken);
            },
        }
        i = i + 1;
    }
    match code {
        None => Err(KeyBindingError::MissingKey),
        Some(k) => Ok(Key { code: k, modifiers: Modifiers { bits: mods } }),
    }
}

/// Keys that a binding writes and reads back unchanged: the four modifiers, and a key with a
/// name (F1 to F12 among the function keys) or an ASCII character other than `+` and the
/// upper-case letters.
pub open spec fn is_supported_key(k: Key) -> bool {
    &&& k.modifiers.bits < 16
    &&& match k.code {
        KeyCode::Char(c) => (c as u32) < 0x80 && c != '+' && !('A' <= c <= 'Z'),
        KeyCode::F(n) => 1 <= n <= 12,
        KeyCode::CapsLock => false,
        KeyCode::ScrollLock => false,
        KeyCode::NumLock => false,
        KeyCode::PrintScreen => false,
        KeyCode::Pause => false,
        KeyCode::Menu => false,
        _ => true,
    }
}

pub open spec fn no_plus(w: Seq<char>) -> bool {
    forall|i: int| 0 <= i < w.len() ==> #[trigger] w[i] != '+'
}

/// `[w]` when `on`, else no word.
pub open spec fn part_word(on: bool, w: Seq<char>) -> Seq<Seq<char>> {
    if on {
        seq![w]
    } else {
        Seq::empty()
    }
}

proof fn lemma_split_append(s: Seq<char>, w: Seq<char>)
    requires
        no_plus(w),
    ensures
        split_plus(s + w) == split_plus(s).update(
            split_plus(s).len() - 1,
            split_plus(s).last() + w,
        ),
    decreases w.len(),
{
    lemma_split_len(s);
    let p = split_plus(s);
    if w.len() == 0 {
        assert(s + w =~= s);
        assert(p.last() + w =~= p.last());
        assert(p.update(p.len() - 1, p.last() + w) =~= p);
    } else {
        let w2 = w.drop_last();
        assert(no_plus(w2)) by {
            assert forall|i: int| 0 <= i < w2.len() implies #[trigger] w2[i] != '+' by {
                assert(w2[i] == w[i]);
            }
        }
        lemma_split_append(s, w2);
        assert((s + w).drop_last() =~= s + w2);
        assert((s + w).last() == w.last());
        assert(w.last() != '+');
        let q = split_plus(s + w2);
        assert(q.last() == p.last() + w2);
        assert((p.last() + w2).push(w.last()) =~= p.last() + w);
        assert(q.update(q.len() - 1, q.last().push(w.last())) =~= p.update(
            p.len() - 1,
            p.last() + w,
        ));
    }
}

proof fn lemma_split_step(s: Seq<char>, words: Seq<Seq<char>>, on: bool, w: Seq<char>, wp: Seq<char>)
    requires
        split_plus(s) == words.push(Seq::<char>::empty()),
        no_plus(w),
        wp == w.push('+'),
    ensures
        split_plus(s + part_if(on, wp)) == (words + part_word(on, w)).push(Seq::<char>::empty()),
{
    if on {
        let t = s + wp;
        assert(t.drop_last() =~= s + w);
        lemma_split_append(s, w);
        assert(Seq::<char>::empty() + w =~= w);
        assert(split_plus(s + w) =~= words.push(w));
        assert(words + part_word(on, w) =~= words.push(w));
    } else {
        assert(s + part_if(on, wp) =~= s);
        assert(words + part_word(on, w) =~= words);
    }
}

proof fn lemma_parse_prefix(a: Seq<Seq<char>>, b: Seq<Seq<char>>, n: nat, ascii: bool)
    requires
        n <= a.len(),
        n <= b.len(),
        forall|i: int| 0 <= i < n ==> a[i] == b[i],
    ensures
        parse_words(a, n, ascii) == parse_words(b, n, ascii),
    decreases n,
{
    if n > 0 {
        lemma_parse_prefix(a, b, (n - 1) as nat, ascii);
    }
}

proof fn lemma_parse_modifier(x: Seq<Seq<char>>, on: bool, w: Seq<char>, bit: u8, acc: u8)
    requires
        parse_words(x, x.len(), true) == Ok::<(u8, Option<KeyCode>), KeyBindingError>((acc, None)),
        classify(lowered(w, true)) == BindingToken::Modifier(bit),
    ensures
        parse_words(x + part_word(on, w), (x + part_word(on, w)).len(), true) == Ok::<
            (u8, Option<KeyCode>),
            KeyBindingError,
        >((if on { acc | bit } else { acc }, None)),
{
    if on {
        let y = x + part_word(on, w);
        assert(y =~= x.push(w));
        lemma_parse_prefix(y, x, x.len(), true);
    } else {
        assert(x + part_word(on, w) =~= x);
    }
}

proof fn lemma_or_bit(a: u8, m: u8, b: u8)
    requires
        b == 1 || b == 2 || b == 4 || b == 8,
    ensures
        (if m & b == b { a | b } else { a }) == a | (m & b),
{
    assert(b == 1 || b == 2 || b == 4 || b == 8 ==> (m & b == b ==> a | b == a | (m & b)) && (m
        & b != b ==> a == a | (m & b))) by (bit_vector);
}

proof fn lemma_modifier_bits(m: u8)
    requires
        m < 16,
    ensures
        (((0u8 | (m & 2)) | (m & 4)) | (m & 1)) | (m & 8) == m,
{
    assert(m < 16 ==> (((0u8 | (m & 2)) | (m & 4)) | (m & 1)) | (m & 8) == m) by (bit_vector);
}

proof fn lemma_name_token(code: KeyCode)
    requires
        is_supported_key(Key { code, modifiers: Modifiers { bits: 0 } }),
    ensures
        no_plus(key_name(code)),
        is_ascii_text(key_name(code)),
        classify(lowered(key_name(code), true)) == BindingToken::Code(code),
{
    reveal_strlit("ctrl");
    reveal_strlit("alt");
    reveal_strlit("shift");
    reveal_strlit("super");
    reveal_strlit("cmd");
    reveal_strlit("enter");
    reveal_strlit("tab");
    reveal_strlit("backspace");
    reveal_strlit("delete");
    reveal_strlit("insert");
    reveal_strlit("home");
    reveal_strlit("end");
    reveal_strlit("pageup");
    reveal_strlit("pagedown");
    reveal_strlit("up");
    reveal_strlit("down");
    reveal_strlit("left");
    reveal_strlit("right");
    reveal_strlit("escape");
    reveal_strlit("Enter");
    reveal_strlit("Tab");
    reveal_strlit("Backspace");
    reveal_strlit("Delete");
    reveal_strlit("Insert");
    reveal_strlit("Home");
    reveal_strlit("End");
    reveal_strlit("PageUp");
    reveal_strlit("PageDown");
    reveal_strlit("Up");
    reveal_strlit("Down");
    reveal_strlit("Left");
    reveal_strlit("Right");
    reveal_strlit("Escape");
    let name = key_name(code);
    let t = lowered(name, true);
    match code {
        KeyCode::Char(c) => {
            assert(t =~= seq![c]);
        },
        KeyCode::F(n) => {
            let d = decimal(n);
            assert(t =~= seq!['f'] + d);
            assert(t[0] == 'f');
            assert(t.drop_first() =~= d);
            if n < 10 {
                assert(d.drop_last() =~= Seq::<char>::empty());
            } else {
                assert(d.drop_last() =~= seq![(n / 10 + 48) as char]);
                assert(d.drop_last().drop_last() =~= Seq::<char>::empty());
            }
            reveal_with_fuel(dec_value, 3);
            if n < 10 {
                assert(d.last() as u32 == n + 48);
            } else {
                assert(d.last() as u32 == n % 10 + 48);
                assert(d.drop_last().last() as u32 == n / 10 + 48);
            }
            assert(all_digits(d));
            assert(dec_value(d) == n);
            assert(classify(t) == BindingToken::Code(code));
        },
        KeyCode::Enter => {
            assert(t =~= "enter"@);
        },
        KeyCode::Tab => {
            assert(t =~= "tab"@);
        },
        KeyCode::Backspace => {
            assert(t =~= "backspace"@);
        },
        KeyCode::Delete => {
            assert(t =~= "delete"@);
        },
        KeyCode::Insert => {
            assert(t =~= "insert"@);
        },
        KeyCode::Home => {
            assert(t =~= "home"@);
        },
        KeyCode::End => {
            assert(t =~= "end"@);
        },
        KeyCode::PageUp => {
            assert(t =~= "pageup"@);
        },
        KeyCode::PageDown => {
            assert(t =~= "pagedown"@);
        },
        KeyCode::Up => {
            assert(t =~= "up"@);
        },
        KeyCode::Down => {
            assert(t =~= "down"@);
        },
        KeyCode::Left => {
            assert(t =~= "left"@);
        },
        KeyCode::Right => {
            assert(t =~= "right"@);
        },
        KeyCode::Escape => {
            assert(t =~= "escape"@);
        },
        _ => {},
    }
}

proof fn lemma_modifier_words()
    ensures
        no_plus("Ctrl"@),
        no_plus("Alt"@),
        no_plus("Shift"@),
        no_plus("Super"@),
        "Ctrl+"@ == "Ctrl"@.push('+'),
        "Alt+"@ == "Alt"@.push('+'),
        "Shift+"@ == "Shift"@.push('+'),
        "Super+"@ == "Super"@.push('+'),
        classify(lowered("Ctrl"@, true)) == BindingToken::Modifier(CTRL_BIT),
        classify(lowered("Alt"@, true)) == BindingToken::Modifier(ALT_BIT),
        classify(lowered("Shift"@, true)) == BindingToken::Modifier(SHIFT_BIT),
        classify(lowered("Super"@, true)) == BindingToken::Modifier(SUPER_BIT),
        is_ascii_text("Ctrl+"@),
        is_ascii_text("Alt+"@),
        is_ascii_text("Shift+"@),
        is_ascii_text("Super+"@),
{
    reveal_strlit("Ctrl");
    reveal_strlit("Alt");
    reveal_strlit("Shift");
    reveal_strlit("Super");
    reveal_strlit("Ctrl+");
    reveal_strlit("Alt+");
    reveal_strlit("Shift+");
    reveal_strlit("Super+");
    reveal_strlit("ctrl");
    reveal_strlit("alt");
    reveal_strlit("shift");
    reveal_strlit("super");
    assert("Ctrl+"@ =~= "Ctrl"@.push('+'));
    assert("Alt+"@ =~= "Alt"@.push('+'));
    assert("Shift+"@ =~= "Shift"@.push('+'));
    assert("Super+"@ =~= "Super"@.push('+'));
    assert(lowered("Ctrl"@, true) =~= "ctrl"@);
    assert(lowered("Alt"@, true) =~= "alt"@);
    assert(lowered("Shift"@, true) =~= "shift"@);
    assert(lowered("Super"@, true) =~= "super"@);
}

proof fn lemma_ascii_concat(a: Seq<char>, b: Seq<char>)
    requires
        is_ascii_text(a),
        is_ascii_text(b),
    ensures
        is_ascii_text(a + b),
{
    assert forall|i: int| 0 <= i < (a + b).len() implies (#[trigger] (a + b)[i]) as u32 <= 0x7f by {
        if i < a.len() {
            assert((a + b)[i] == a[i]);
        } else {
            assert((a + b)[i] == b[i - a.len()]);
        }
    }
}

/// Writing a supported key as a binding and parsing the text gives the key back; the text is
/// ASCII, so the parser's result on it is the one with ASCII lower-casing.
pub proof fn lemma_binding_round_trip(k: Key)
    requires
        is_supported_key(k),
    ensures
        is_ascii_text(key_text(k)),
        parse_binding_with(key_text(k), true) == Ok::<Key, KeyBindingError>(k),
{
    let m = k.modifiers.bits;
    lemma_modifier_words();
    lemma_name_token(k.code);
    let c = has(m, CTRL_BIT);
    let a = has(m, ALT_BIT);
    let sh = has(m, SHIFT_BIT);
    let su = has(m, SUPER_BIT);
    let e = Seq::<char>::empty();
    let p1 = part_if(c, "Ctrl+"@);
    let p2 = p1 + part_if(a, "Alt+"@);
    let p3 = p2 + part_if(sh, "Shift+"@);
    let p4 = p3 + part_if(su, "Super+"@);
    assert(p4 == modifier_prefix(m));
    let w1 = part_word(c, "Ctrl"@);
    let w2 = w1 + part_word(a, "Alt"@);
    let w3 = w2 + part_word(sh, "Shift"@);
    let w4 = w3 + part_word(su, "Super"@);
    assert(split_plus(e) == Seq::<Seq<char>>::empty().push(e));
    lemma_split_step(e, Seq::empty(), c, "Ctrl"@, "Ctrl+"@);
    assert(e + p1 =~= p1);
    assert(Seq::<Seq<char>>::empty() + w1 =~= w1);
    lemma_split_step(p1, w1, a, "Alt"@, "Alt+"@);
    lemma_split_step(p2, w2, sh, "Shift"@, "Shift+"@);
    lemma_split_step(p3, w3, su, "Super"@, "Super+"@);
    let name = key_name(k.code);
    lemma_split_append(p4, name);
    assert(e + name =~= name);
    let ws = split_plus(key_text(k));
    assert(ws =~= w4.push(name));
    // the modifier words
    assert(parse_words(Seq::<Seq<char>>::empty(), 0, true) == Ok::<(u8, Option<KeyCode>), KeyBindingError>((0u8, None)));
    lemma_parse_modifier(Seq::empty(), c, "Ctrl"@, CTRL_BIT, 0u8);
    let acc1: u8 = if c { 0u8 | CTRL_BIT } else { 0u8 };
    lemma_parse_modifier(w1, a, "Alt"@, ALT_BIT, acc1);
    let acc2: u8 = if a { acc1 | ALT_BIT } else { acc1 };
    lemma_parse_modifier(w2, sh, "Shift"@, SHIFT_BIT, acc2);
    let acc3: u8 = if sh { acc2 | SHIFT_BIT } else { acc2 };
    lemma_parse_modifier(w3, su, "Super"@, SUPER_BIT, acc3);
    let acc4: u8 = if su { acc3 | SUPER_BIT } else { acc3 };
    lemma_or_bit(0u8, m, CTRL_BIT);
    lemma_or_bit(acc1, m, ALT_BIT);
    lemma_or_bit(acc2, m, SHIFT_BIT);
    lemma_or_bit(acc3, m, SUPER_BIT);
    lemma_modifier_bits(m);
    assert(acc4 == m);
    // the key name
    lemma_parse_prefix(ws, w4, w4.len(), true);
    assert(ws[w4.len() as int] == name);
    assert(parse_words(ws, ws.len(), true) == Ok::<(u8, Option<KeyCode>), KeyBindingError>((m, Some(k.code))));
    // ASCII
    assert(is_ascii_text(e));
    assert(is_ascii_text(part_if(c, "Ctrl+"@)));
    assert(is_ascii_text(part_if(a, "Alt+"@)));
    assert(is_ascii_text(part_if(sh, "Shift+"@)));
    assert(is_ascii_text(part_if(su, "Super+"@)));
    lemma_ascii_concat(p1, part_if(a, "Alt+"@));
    lemma_ascii_concat(p2, part_if(sh, "Shift+"@));
    lemma_ascii_concat(p3, part_if(su, "Super+"@));
    lemma_ascii_concat(p4, name);
}

} // verus!
