use vstd::prelude::*;
use crate::text::{
    chars_eq, chars_to_string, decimal, lemma_decimal_value, parse_unsigned, parse_unsigned_chars,
    push_decimal, str_chars, sub_chars,
};

verus! {

/// A key as the game tells keys apart.
///
/// `Modifier` and `Other` carry a number that tells apart the keys the game
/// has no name for (modifier keys, media keys, lock keys and the like).
#[derive(Clone, Copy, Debug, PartialEq, Eq, Structural)]
pub enum KeyCode {
    Backspace,
    Enter,
    Left,
    Right,
    Up,
    Down,
    Home,
    End,
    PageUp,
    PageDown,
    Tab,
    Delete,
    Insert,
    F(u8),
    Char(char),
    Null,
    Esc,
    Modifier(u8),
    Other(u16),
}

/// The eight rebindable actions, in the order of the configuration screen:
/// up, down, left, right, fire, bomb, quit, restart.
#[derive(Clone, Copy, Debug, PartialEq, Eq, Structural)]
pub struct KeyBindings {
    pub up: KeyCode,
    pub down: KeyCode,
    pub left: KeyCode,
    pub right: KeyCode,
    pub fire: KeyCode,
    pub bomb: KeyCode,
    pub quit: KeyCode,
    pub restart: KeyCode,
}

/// The number of rebindable actions.
pub const BINDING_COUNT: usize = 8;

impl KeyBindings {
    /// The key bound to action `index`; `Null` past the eighth.
    pub open spec fn slot(self, index: int) -> KeyCode {
        if index == 0 { self.up }
        else if index == 1 { self.down }
        else if index == 2 { self.left }
        else if index == 3 { self.right }
        else if index == 4 { self.fire }
        else if index == 5 { self.bomb }
        else if index == 6 { self.quit }
        else if index == 7 { self.restart }
        else { KeyCode::Null }
    }

    /// The bindings with action `index` bound to `key`; unchanged past the eighth.
    pub open spec fn with_slot(self, index: int, key: KeyCode) -> KeyBindings {
        if index == 0 { KeyBindings { up: key, ..self } }
        else if index == 1 { KeyBindings { down: key, ..self } }
        else if index == 2 { KeyBindings { left: key, ..self } }
        else if index == 3 { KeyBindings { right: key, ..self } }
        else if index == 4 { KeyBindings { fire: key, ..self } }
        else if index == 5 { KeyBindings { bomb: key, ..self } }
        else if index == 6 { KeyBindings { quit: key, ..self } }
        else if index == 7 { KeyBindings { restart: key, ..self } }
        else { self }
    }

    pub open spec fn spec_default() -> KeyBindings {
        KeyBindings {
            up: KeyCode::Up,
            down: KeyCode::Down,
            left: KeyCode::Left,
            right: KeyCode::Right,
            fire: KeyCode::Char('z'),
            bomb: KeyCode::Char('x'),
            quit: KeyCode::Char('q'),
            restart: KeyCode::Char('r'),
        }
    }

    /// Binding by index (0..8) for the configuration screen.
    pub fn get(&self, index: usize) -> (key: KeyCode)
        ensures
            key == self.slot(index as int),
    {
        match index {
            0 => self.up,
            1 => self.down,
            2 => self.left,
            3 => self.right,
            4 => self.fire,
            5 => self.bomb,
            6 => self.quit,
            7 => self.restart,
            _ => KeyCode::Null,
        }
    }

    /// Rebinds action `index` (0..8); an index past the eighth changes nothing.
    pub fn set(&mut self, index: usize, key: KeyCode)
        ensures
            *final(self) == old(self).with_slot(index as int, key),
    {
        match index {
            0 => self.up = key,
            1 => self.down = key,
            2 => self.left = key,
            3 => self.right = key,
            4 => self.fire = key,
            5 => self.bomb = key,
            6 => self.quit = key,
            7 => self.restart = key,
            _ => {},
        }
    }
}

impl Default for KeyBindings {
    fn default() -> (b: Self)
        ensures
            b == KeyBindings::spec_default(),
    {
        KeyBindings {
            up: KeyCode::Up,
            down: KeyCode::Down,
            left: KeyCode::Left,
            right: KeyCode::Right,
            fire: KeyCode::Char('z'),
            bomb: KeyCode::Char('x'),
            quit: KeyCode::Char('q'),
            restart: KeyCode::Char('r'),
        }
    }
}

/// Reading a binding just set gives the new key; every other binding keeps
/// its key.
pub proof fn lemma_get_after_set(b: KeyBindings, index: int, key: KeyCode, other: int)
    requires
        0 <= index < 8,
        other != index,
    ensures
        b.with_slot(index, key).slot(index) == key,
        b.with_slot(index, key).slot(other) == b.slot(other),
{
}

/// Setting a binding to what it already holds changes nothing.
pub proof fn lemma_set_same(b: KeyBindings, index: int)
    ensures
        b.with_slot(index, b.slot(index)) == b,
{
}

// ---------------------------------------------------------------------------
// Save-file text of a key
// ---------------------------------------------------------------------------

pub open spec fn key_text(key: KeyCode) -> Seq<char> {
    match key {
        KeyCode::Up => seq!['U', 'p'],
        KeyCode::Down => seq!['D', 'o', 'w', 'n'],
        KeyCode::Left => seq!['L', 'e', 'f', 't'],
        KeyCode::Right => seq!['R', 'i', 'g', 'h', 't'],
        KeyCode::Enter => seq!['E', 'n', 't', 'e', 'r'],
        KeyCode::Esc => seq!['E', 's', 'c'],
        KeyCode::Backspace => seq!['B', 'a', 'c', 'k', 's', 'p', 'a', 'c', 'e'],
        KeyCode::Tab => seq!['T', 'a', 'b'],
        KeyCode::Delete => seq!['D', 'e', 'l', 'e', 't', 'e'],
        KeyCode::Insert => seq!['I', 'n', 's', 'e', 'r', 't'],
        KeyCode::Home => seq!['H', 'o', 'm', 'e'],
        KeyCode::End => seq!['E', 'n', 'd'],
        KeyCode::PageUp => seq!['P', 'a', 'g', 'e', 'U', 'p'],
        KeyCode::PageDown => seq!['P', 'a', 'g', 'e', 'D', 'o', 'w', 'n'],
        KeyCode::Char(c) => if c == ' ' {
            seq!['S', 'p', 'a', 'c', 'e']
        } else {
            seq!['C', 'h', 'a', 'r', ':', c]
        },
        KeyCode::F(n) => seq!['F', ':'] + decimal(n as nat),
        _ => seq!['U', 'n', 'k', 'n', 'o', 'w', 'n'],
    }
}

/// The key that a save-file text names, if any.
pub open spec fn key_from_text(s: Seq<char>) -> Option<KeyCode> {
    if s == seq!['U', 'p'] { Some(KeyCode::Up) }
    else if s == seq!['D', 'o', 'w', 'n'] { Some(KeyCode::Down) }
    else if s == seq!['L', 'e', 'f', 't'] { Some(KeyCode::Left) }
    else if s == seq!['R', 'i', 'g', 'h', 't'] { Some(KeyCode::Right) }
    else if s == seq!['E', 'n', 't', 'e', 'r'] { Some(KeyCode::Enter) }
    else if s == seq!['E', 's', 'c'] { Some(KeyCode::Esc) }
    else if s == seq!['B', 'a', 'c', 'k', 's', 'p', 'a', 'c', 'e'] { Some(KeyCode::Backspace) }
    else if s == seq!['T', 'a', 'b'] { Some(KeyCode::Tab) }
    else if s == seq!['D', 'e', 'l', 'e', 't', 'e'] { Some(KeyCode::Delete) }
    else if s == seq!['I', 'n', 's', 'e', 'r', 't'] { Some(KeyCode::Insert) }
    else if s == seq!['H', 'o', 'm', 'e'] { Some(KeyCode::Home) }
    else if s == seq!['E', 'n', 'd'] { Some(KeyCode::End) }
    else if s == seq!['P', 'a', 'g', 'e', 'U', 'p'] { Some(KeyCode::PageUp) }
    else if s == seq!['P', 'a', 'g', 'e', 'D', 'o', 'w', 'n'] { Some(KeyCode::PageDown) }
    else if s == seq!['S', 'p', 'a', 'c', 'e'] { Some(KeyCode::Char(' ')) }
    else if s.len() >= 5 && s.take(5) == seq!['C', 'h', 'a', 'r', ':'] {
        if s.len() > 5 { Some(KeyCode::Char(s[5])) } else { None }
    } else if s.len() >= 2 && s.take(2) == seq!['F', ':'] {
        match parse_unsigned(s.skip(2), 255) {
            Some(n) => Some(KeyCode::F(n as u8)),
            None => None,
        }
    } else {
        None
    }
}

/// The keys that a save file can name.
pub open spec fn is_nameable(key: KeyCode) -> bool {
    !(key is Null || key is Modifier || key is Other)
}

pub fn keycode_text(key: KeyCode) -> (r: Vec<char>)
    ensures
        r@ == key_text(key),
{
    let r = match key {
        KeyCode::Up => vec!['U', 'p'],
        KeyCode::Down => vec!['D', 'o', 'w', 'n'],
        KeyCode::Left => vec!['L', 'e', 'f', 't'],
        KeyCode::Right => vec!['R', 'i', 'g', 'h', 't'],
        KeyCode::Enter => vec!['E', 'n', 't', 'e', 'r'],
        KeyCode::Esc => vec!['E', 's', 'c'],
        KeyCode::Backspace => vec!['B', 'a', 'c', 'k', 's', 'p', 'a', 'c', 'e'],
        KeyCode::Tab => vec!['T', 'a', 'b'],
        KeyCode::Delete => vec!['D', 'e', 'l', 'e', 't', 'e'],
        KeyCode::Insert => vec!['I', 'n', 's', 'e', 'r', 't'],
        KeyCode::Home => vec!['H', 'o', 'm', 'e'],
        KeyCode::End => vec!['E', 'n', 'd'],
        KeyCode::PageUp => vec!['P', 'a', 'g', 'e', 'U', 'p'],
        KeyCode::PageDown => vec!['P', 'a', 'g', 'e', 'D', 'o', 'w', 'n'],
        KeyCode::Char(c) => if c == ' ' {
            vec!['S', 'p', 'a', 'c', 'e']
        } else {
            vec!['C', 'h', 'a', 'r', ':', c]
        },
        KeyCode::F(n) => {
            let mut v = vec!['F', ':'];
            push_decimal(&mut v, n as u64);
            v
        },
        _ => vec!['U', 'n', 'k', 'n', 'o', 'w', 'n'],
    };
    assert(r@ =~= key_text(key));
    r
}

/// Serializes a key for the save file.
pub fn keycode_to_string(key: KeyCode) -> (s: String)
    ensures
        s@ == key_text(key),
{
    chars_to_string(&keycode_text(key))
}

/// Reads back a key written by `keycode_to_string`.
pub fn string_to_keycode(s: &str) -> (k: Option<KeyCode>)
    ensures
        k == key_from_text(s@),
{
    let v = str_chars(s);
    keycode_from_chars(&v)
}

pub fn keycode_from_chars(v: &Vec<char>) -> (k: Option<KeyCode>)
    ensures
        k == key_from_text(v@),
{
    if chars_eq(v, &vec!['U', 'p']) { return Some(KeyCode::Up); }
    if chars_eq(v, &vec!['D', 'o', 'w', 'n']) { return Some(KeyCode::Down); }
    if chars_eq(v, &vec!['L', 'e', 'f', 't']) { return Some(KeyCode::Left); }
    if chars_eq(v, &vec!['R', 'i', 'g', 'h', 't']) { return Some(KeyCode::Right); }
    if chars_eq(v, &vec!['E', 'n', 't', 'e', 'r']) { return Some(KeyCode::Enter); }
    if chars_eq(v, &vec!['E', 's', 'c']) { return Some(KeyCode::Esc); }
    if chars_eq(v, &vec!['B', 'a', 'c', 'k', 's', 'p', 'a', 'c', 'e']) { return Some(KeyCode::Backspace); }
    if chars_eq(v, &vec!['T', 'a', 'b']) { return Some(KeyCode::Tab); }
    if chars_eq(v, &vec!['D', 'e', 'l', 'e', 't', 'e']) { return Some(KeyCode::Delete); }
    if chars_eq(v, &vec!['I', 'n', 's', 'e', 'r', 't']) { return Some(KeyCode::Insert); }
    if chars_eq(v, &vec!['H', 'o', 'm', 'e']) { return Some(KeyCode::Home); }
    if chars_eq(v, &vec!['E', 'n', 'd']) { return Some(KeyCode::End); }
    if chars_eq(v, &vec!['P', 'a', 'g', 'e', 'U', 'p']) { return Some(KeyCode::PageUp); }
    if chars_eq(v, &vec!['P', 'a', 'g', 'e', 'D', 'o', 'w', 'n']) { return Some(KeyCode::PageDown); }
    if chars_eq(v, &vec!['S', 'p', 'a', 'c', 'e']) { return Some(KeyCode::Char(' ')); }
    if v.len() >= 5 {
        let head = sub_chars(v, 0, 5);
        if chars_eq(&head, &vec!['C', 'h', 'a', 'r', ':']) {
            return if v.len() > 5 { Some(KeyCode::Char(v[5])) } else { None };
        }
    }
    if v.len() >= 2 {
        let head = sub_chars(v, 0, 2);
        if chars_eq(&head, &vec!['F', ':']) {
            let rest = sub_chars(v, 2, v.len());
            assert(rest@ =~= v@.skip(2));
            return match parse_unsigned_chars(&rest, 255) {
                Some(n) => Some(KeyCode::F(n as u8)),
                None => None,
            };
        }
    }
    None
}

/// Reading back the text of a key gives the key, for every key that the
/// save file can name.
pub proof fn lemma_key_text_round_trip(key: KeyCode)
    requires
        is_nameable(key),
    ensures
        key_from_text(key_text(key)) == Some(key),
{
    let t = key_text(key);
    match key {
        KeyCode::Char(c) => {
            if c != ' ' {
                assert(t.take(5) =~= seq!['C', 'h', 'a', 'r', ':']);
                assert(t.len() == 6);
                assert(t != seq!['U', 'p']);
                assert(t != seq!['S', 'p', 'a', 'c', 'e']);
                assert(t[0] == 'C' && t[1] == 'h');
            }
        },
        KeyCode::F(n) => {
            lemma_decimal_value(n as nat);
            assert(t.take(2) =~= seq!['F', ':']);
            assert(t.skip(2) =~= decimal(n as nat));
            assert(t[0] == 'F' && t[1] == ':');
            assert(t.len() >= 3);
            assert(decimal(n as nat)[0] != '+');
        },
        _ => {},
    }
}

// ---------------------------------------------------------------------------
// Display name of a key
// ---------------------------------------------------------------------------

/// What `char::to_uppercase` yields for `c`, collected into a string.
pub uninterp spec fn uppercase_of(c: char) -> Seq<char>;

/// Calls `char::to_uppercase` and collects what it yields. The result is
/// named by `uppercase_of`; for ASCII characters it is the one ASCII
/// upper-case letter (for `a` to `z`) or the character itself (for the rest),
/// as the Unicode case mapping that the function follows gives it. Nothing
/// is stated of other characters.
#[verifier::external_body]
fn char_to_uppercase(c: char) -> (s: String)
    ensures
        s@ == uppercase_of(c),
        ('a' <= c && c <= 'z') ==> s@ == seq![(c as int - 32) as char],
        ((c as int) < 128 && !('a' <= c && c <= 'z')) ==> s@ == seq![c],
{
    c.to_uppercase().collect()
}

pub open spec fn key_name(key: KeyCode) -> Seq<char> {
    match key {
        KeyCode::Up => seq!['\u{2191}'],
        KeyCode::Down => seq!['\u{2193}'],
        KeyCode::Left => seq!['\u{2190}'],
        KeyCode::Right => seq!['\u{2192}'],
        KeyCode::Enter => seq!['E', 'n', 't', 'e', 'r'],
        KeyCode::Esc => seq!['E', 's', 'c'],
        KeyCode::Backspace => seq!['B', 'k', 's', 'p'],
        KeyCode::Tab => seq!['T', 'a', 'b'],
        KeyCode::Delete => seq!['D', 'e', 'l'],
        KeyCode::Insert => seq!['I', 'n', 's'],
        KeyCode::Home => seq!['H', 'o', 'm', 'e'],
        KeyCode::End => seq!['E', 'n', 'd'],
        KeyCode::PageUp => seq!['P', 'g', 'U', 'p'],
        KeyCode::PageDown => seq!['P', 'g', 'D', 'n'],
        KeyCode::Char(c) => if c == ' ' {
            seq!['S', 'p', 'a', 'c', 'e']
        } else {
            uppercase_of(c)
        },
        KeyCode::F(n) => seq!['F'] + decimal(n as nat),
        KeyCode::Null => seq!['N', 'o', 'n', 'e'],
        _ => seq!['?', '?', '?'],
    }
}

/// Human-readable name of a key, for the configuration screen.
pub fn keycode_name(key: KeyCode) -> (s: String)
    ensures
        s@ == key_name(key),
{
    let v = match key {
        KeyCode::Up => vec!['\u{2191}'],
        KeyCode::Down => vec!['\u{2193}'],
        KeyCode::Left => vec!['\u{2190}'],
        KeyCode::Right => vec!['\u{2192}'],
        KeyCode::Enter => vec!['E', 'n', 't', 'e', 'r'],
        KeyCode::Esc => vec!['E', 's', 'c'],
        KeyCode::Backspace => vec!['B', 'k', 's', 'p'],
        KeyCode::Tab => vec!['T', 'a', 'b'],
        KeyCode::Delete => vec!['D', 'e', 'l'],
        KeyCode::Insert => vec!['I', 'n', 's'],
        KeyCode::Home => vec!['H', 'o', 'm', 'e'],
        KeyCode::End => vec!['E', 'n', 'd'],
        KeyCode::PageUp => vec!['P', 'g', 'U', 'p'],
        KeyCode::PageDown => vec!['P', 'g', 'D', 'n'],
        KeyCode::Char(c) => {
            if c == ' ' {
                vec!['S', 'p', 'a', 'c', 'e']
            } else {
                return char_to_uppercase(c);
            }
        },
        KeyCode::F(n) => {
            let mut v = vec!['F'];
            push_decimal(&mut v, n as u64);
            v
        },
        KeyCode::Null => vec!['N', 'o', 'n', 'e'],
        _ => vec!['?', '?', '?'],
    };
    assert(v@ =~= key_name(key));
    chars_to_string(&v)
}

} // verus!
