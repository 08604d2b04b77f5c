//! The text of the status rows, the configuration screen and the debug
//! menu.

use vstd::prelude::*;
use crate::game::CheatState;
use crate::keybinds::{KeyBindings, key_name, keycode_name};
use crate::text::{decimal, push_decimal, str_chars};

verus! {

/// How a menu row is coloured.
#[derive(Clone, Copy, Debug, PartialEq, Eq, Structural)]
pub enum RowStyle {
    Normal,
    /// Under the cursor.
    Selected,
    /// Under the cursor, waiting for a key to bind.
    Binding,
    /// A setting that is switched on.
    On,
}

/// `n` blanks.
pub open spec fn blanks(n: int) -> Seq<char> {
    Seq::new(if n > 0 { n as nat } else { 0 }, |i: int| ' ')
}

/// `s` filled up with blanks on the right to `width` characters.
pub open spec fn pad_to(s: Seq<char>, width: int) -> Seq<char> {
    s + blanks(width - s.len())
}

/// Fills `v` up with blanks on the right to `width` characters.
pub fn pad_right(v: &mut Vec<char>, width: usize)
    ensures
        final(v)@ == pad_to(old(v)@, width as int),
{
    while v.len() < width
        invariant
            old(v)@.len() <= v@.len() <= if width > old(v)@.len() { width as int } else { old(v)@.len() as int },
            v@ == old(v)@ + blanks(v@.len() - old(v)@.len()),
        decreases width - v@.len(),
    {
        v.push(' ');
        assert(v@ =~= old(v)@ + blanks(v@.len() - old(v)@.len()));
    }
    assert(v@ =~= pad_to(old(v)@, width as int));
}

// ---------------------------------------------------------------------------
// Configuration screen
// ---------------------------------------------------------------------------

/// The names of the eight actions, in binding order.
pub open spec fn bind_label(i: int) -> Seq<char> {
    if i == 0 { seq!['U', 'p'] }
    else if i == 1 { seq!['D', 'o', 'w', 'n'] }
    else if i == 2 { seq!['L', 'e', 'f', 't'] }
    else if i == 3 { seq!['R', 'i', 'g', 'h', 't'] }
    else if i == 4 { seq!['F', 'i', 'r', 'e'] }
    else if i == 5 { seq!['B', 'o', 'm', 'b'] }
    else if i == 6 { seq!['Q', 'u', 'i', 't'] }
    else { seq!['R', 'e', 's', 't', 'a', 'r', 't'] }
}

fn bind_label_chars(i: usize) -> (r: Vec<char>)
    ensures
        r@ == bind_label(i as int),
{
    let r = if i == 0 { vec!['U', 'p'] }
        else if i == 1 { vec!['D', 'o', 'w', 'n'] }
        else if i == 2 { vec!['L', 'e', 'f', 't'] }
        else if i == 3 { vec!['R', 'i', 'g', 'h', 't'] }
        else if i == 4 { vec!['F', 'i', 'r', 'e'] }
        else if i == 5 { vec!['B', 'o', 'm', 'b'] }
        else if i == 6 { vec!['Q', 'u', 'i', 't'] }
        else { vec!['R', 'e', 's', 't', 'a', 'r', 't'] };
    assert(r@ =~= bind_label(i as int));
    r
}

/// The prompt shown, blinking, while a key is awaited.
pub open spec fn key_prompt() -> Seq<char> {
    seq!['[', 'P', 'r', 'e', 's', 's', ' ', 'a', ' ', 'k', 'e', 'y', '.', '.', '.', ']']
}

/// The text of row `i` of the configuration screen, 28 characters wide: a
/// cursor mark, the action's name and its key. While the row under the
/// cursor waits for a key, the key's place shows the prompt when
/// `prompt_on` and blanks otherwise.
pub open spec fn config_row_text(b: KeyBindings, i: int, selected: int, binding: bool, prompt_on: bool) -> Seq<char> {
    let mark = if i == selected { '>' } else { ' ' };
    let key = if i == selected && binding {
        if prompt_on { key_prompt() } else { blanks(14) }
    } else {
        key_name(b.slot(i))
    };
    pad_to(seq![' ', mark, ' '] + pad_to(bind_label(i), 10) + seq![':', ' '] + pad_to(key, 14), 28)
}

/// How row `i` of the configuration screen is coloured.
pub open spec fn config_row_style(i: int, selected: int, binding: bool) -> RowStyle {
    if i == selected && binding { RowStyle::Binding }
    else if i == selected { RowStyle::Selected }
    else { RowStyle::Normal }
}

/// The text and colouring of row `i` of the configuration screen.
pub fn config_row(b: &KeyBindings, i: usize, selected: usize, binding: bool, prompt_on: bool) -> (r: (Vec<char>, RowStyle))
    ensures
        r.0@ == config_row_text(*b, i as int, selected as int, binding, prompt_on),
        r.1 == config_row_style(i as int, selected as int, binding),
{
    let mark = if i == selected { '>' } else { ' ' };
    let mut key: Vec<char> = if i == selected && binding {
        if prompt_on {
            let p = vec!['[', 'P', 'r', 'e', 's', 's', ' ', 'a', ' ', 'k', 'e', 'y', '.', '.', '.', ']'];
            assert(p@ =~= key_prompt());
            p
        } else {
            let mut p: Vec<char> = Vec::new();
            pad_right(&mut p, 14);
            assert(p@ =~= blanks(14));
            p
        }
    } else {
        str_chars(keycode_name(b.get(i)).as_str())
    };
    let mut label = bind_label_chars(i);
    pad_right(&mut label, 10);
    pad_right(&mut key, 14);
    let mut row = vec![' ', mark, ' '];
    row.append(&mut label);
    row.push(':');
    row.push(' ');
    row.append(&mut key);
    pad_right(&mut row, 28);
    let style = if i == selected && binding {
        RowStyle::Binding
    } else if i == selected {
        RowStyle::Selected
    } else {
        RowStyle::Normal
    };
    assert(row@ =~= config_row_text(*b, i as int, selected as int, binding, prompt_on));
    (row, style)
}

// ---------------------------------------------------------------------------
// Debug menu
// ---------------------------------------------------------------------------

/// The label of row `i` (0 to 3) of the debug menu.
pub open spec fn cheat_label(c: CheatState, i: int) -> Seq<char> {
    if i == 0 {
        seq!['S', 't', 'a', 'r', 't', ' ', 'S', 't', 'a', 'g', 'e', ':', ' ', ' ', '<', ' ']
            + decimal(c.start_stage as nat) + seq![' ', '>']
    } else if i == 1 {
        seq!['I', 'n', 'v', 'i', 'n', 'c', 'i', 'b', 'l', 'e', ':', ' ', ' ', ' ']
            + if c.invincible { seq!['O', 'N'] } else { seq!['O', 'F', 'F'] }
    } else if i == 2 {
        seq!['I', 'n', 'f', 'i', 'n', 'i', 't', 'e', ' ', 'F', 'u', 'e', 'l', ':']
            + if c.infinite_fuel { seq![' ', 'O', 'N'] } else { seq![' ', 'O', 'F', 'F'] }
    } else {
        seq!['>', '>', '>', ' ', 'L', 'A', 'U', 'N', 'C', 'H', ' ', '<', '<', '<']
    }
}

/// The text of row `i` of the debug menu, 30 characters wide: a cursor mark
/// and the row's label.
pub open spec fn cheat_row_text(c: CheatState, i: int) -> Seq<char> {
    let mark = if i == c.selected { '>' } else { ' ' };
    pad_to(seq![' ', mark, ' '] + pad_to(cheat_label(c, i), 27), 30)
}

/// How row `i` of the debug menu is coloured: the cursor's row stands out,
/// and a setting that is on is marked.
pub open spec fn cheat_row_style(c: CheatState, i: int) -> RowStyle {
    if i == c.selected { RowStyle::Selected }
    else if (i == 1 && c.invincible) || (i == 2 && c.infinite_fuel) { RowStyle::On }
    else { RowStyle::Normal }
}

/// The text and colouring of row `i` (0 to 3) of the debug menu.
pub fn cheat_row(c: &CheatState, i: usize) -> (r: (Vec<char>, RowStyle))
    ensures
        r.0@ == cheat_row_text(*c, i as int),
        r.1 == cheat_row_style(*c, i as int),
{
    let mut label: Vec<char> = if i == 0 {
        let mut v = vec!['S', 't', 'a', 'r', 't', ' ', 'S', 't', 'a', 'g', 'e', ':', ' ', ' ', '<', ' '];
        push_decimal(&mut v, c.start_stage as u64);
        v.push(' ');
        v.push('>');
        v
    } else if i == 1 {
        let mut v = vec!['I', 'n', 'v', 'i', 'n', 'c', 'i', 'b', 'l', 'e', ':', ' ', ' ', ' '];
        if c.invincible {
            v.push('O');
            v.push('N');
        } else {
            v.push('O');
            v.push('F');
            v.push('F');
        }
        v
    } else if i == 2 {
        let mut v = vec!['I', 'n', 'f', 'i', 'n', 'i', 't', 'e', ' ', 'F', 'u', 'e', 'l', ':', ' '];
        if c.infinite_fuel {
            v.push('O');
            v.push('N');
        } else {
            v.push('O');
            v.push('F');
            v.push('F');
        }
        v
    } else {
        vec!['>', '>', '>', ' ', 'L', 'A', 'U', 'N', 'C', 'H', ' ', '<', '<', '<']
    };
    assert(label@ =~= cheat_label(*c, i as int));
    pad_right(&mut label, 27);
    let mark = if i == c.selected { '>' } else { ' ' };
    let mut row = vec![' ', mark, ' '];
    row.append(&mut label);
    pad_right(&mut row, 30);
    let style = if i == c.selected {
        RowStyle::Selected
    } else if (i == 1 && c.invincible) || (i == 2 && c.infinite_fuel) {
        RowStyle::On
    } else {
        RowStyle::Normal
    };
    assert(row@ =~= cheat_row_text(*c, i as int));
    (row, style)
}

// ---------------------------------------------------------------------------
// Status rows
// ---------------------------------------------------------------------------

/// `s` filled up with blanks on the left to `width` characters.
pub open spec fn pad_left_to(s: Seq<char>, width: int) -> Seq<char> {
    blanks(width - s.len()) + s
}

/// The decimal numeral of `n`, right-aligned in `width` characters.
fn right_aligned(n: u64, width: usize) -> (r: Vec<char>)
    ensures
        r@ == pad_left_to(decimal(n as nat), width as int),
{
    let mut digits: Vec<char> = Vec::new();
    push_decimal(&mut digits, n);
    assert(digits@ =~= decimal(n as nat));
    let mut r: Vec<char> = Vec::new();
    let mut k: usize = digits.len();
    while k < width
        invariant
            digits@ == decimal(n as nat),
            digits@.len() <= k <= if width > digits@.len() { width as int } else { digits@.len() as int },
            r@ == blanks(k - digits@.len()),
        decreases width - k,
    {
        r.push(' ');
        k = k + 1;
        assert(r@ =~= blanks(k - digits@.len()));
    }
    r.append(&mut digits);
    assert(r@ =~= pad_left_to(decimal(n as nat), width as int));
    r
}

/// The top status row: score and high score right-aligned in six places,
/// the stage and the version, filled up with blanks to the screen's width.
pub open spec fn status_top_text(score: u32, hi_score: u32, stage: usize, version: Seq<char>, width: int) -> Seq<char> {
    pad_to(
        seq![' ', 'S', 'C', 'O', 'R', 'E', ':', ' '] + pad_left_to(decimal(score as nat), 6)
            + seq![' ', ' ', 'H', 'I', ':', ' '] + pad_left_to(decimal(hi_score as nat), 6)
            + seq![' ', ' ', 'S', 'T', 'A', 'G', 'E', ' '] + decimal(stage as nat) + seq![' ', ' '] + version,
        width,
    )
}

/// The text of the top status row (see `status_top_text`).
pub fn status_top_line(score: u32, hi_score: u32, stage: usize, version: &str, width: usize) -> (r: Vec<char>)
    ensures
        r@ == status_top_text(score, hi_score, stage, version@, width as int),
{
    let mut r = vec![' ', 'S', 'C', 'O', 'R', 'E', ':', ' '];
    let mut s = right_aligned(score as u64, 6);
    r.append(&mut s);
    let mut hi_label = vec![' ', ' ', 'H', 'I', ':', ' '];
    r.append(&mut hi_label);
    let mut h = right_aligned(hi_score as u64, 6);
    r.append(&mut h);
    let mut stage_label = vec![' ', ' ', 'S', 'T', 'A', 'G', 'E', ' '];
    r.append(&mut stage_label);
    push_decimal(&mut r, stage as u64);
    r.push(' ');
    r.push(' ');
    let mut v = str_chars(version);
    r.append(&mut v);
    let ghost before_pad = r@;
    assert(before_pad =~= seq![' ', 'S', 'C', 'O', 'R', 'E', ':', ' '] + pad_left_to(decimal(score as nat), 6)
        + seq![' ', ' ', 'H', 'I', ':', ' '] + pad_left_to(decimal(hi_score as nat), 6)
        + seq![' ', ' ', 'S', 'T', 'A', 'G', 'E', ' '] + decimal(stage as nat) + seq![' ', ' '] + version@);
    pad_right(&mut r, width);
    r
}

/// The blanks between the hearts and the navigation gauge on the bottom
/// status row: the gauge takes the last 17 columns, and the fuel gauge and
/// hearts take 26 columns plus two per life.
pub open spec fn status_gap(lives: u32, width: int) -> int {
    let right_edge = if width > 17 { width - 17 } else { 0 };
    let used = 26 + 2 * lives;
    if right_edge > used { right_edge - used } else { 0 }
}

/// The number of blanks between the hearts and the navigation gauge (see
/// `status_gap`).
pub fn status_gap_width(lives: u32, width: usize) -> (r: usize)
    ensures
        r == status_gap(lives, width as int),
{
    let right_edge: usize = if width > 17 { width - 17 } else { 0 };
    let used: u64 = 26 + 2 * (lives as u64);
    if (right_edge as u64) > used {
        right_edge - (used as usize)
    } else {
        0
    }
}

} // verus!
