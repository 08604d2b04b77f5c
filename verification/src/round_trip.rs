//! Reading back a save file that was written: the proof that `parse` after
//! `to_json` gives the table and the bindings that were written.

use vstd::prelude::*;
use crate::text::{find_from, matches_at, lemma_find_from};
use crate::save::{
    entries_from, quoted_texts_from, entry_from, entry_open, entry_after_name, entry_after_score,
    string_field, number_field, name_field, score_field, stage_field, quoted, field_value_start,
    trim_start, number_len, entry_line, entry_close, line_end, escaped, lemma_escaped_plain, entry_lines,
    keybindings_key, key_line, key_lines, key_open, apply_key_texts, json_head, json_middle, json_tail,
    save_text, parsed_table, parsed_bindings, high_scores_key, array_after, SaveData,
};
use crate::keybinds::{KeyBindings, KeyCode, key_text, key_from_text, is_nameable, lemma_key_text_round_trip};
use crate::text::{decimal, lemma_decimal_value, all_digits, is_digit, is_whitespace, parse_i64};

verus! {

// ---------------------------------------------------------------------------
// Searching in text of known shape
// ---------------------------------------------------------------------------

/// A window that differs from `pat` in one place is no occurrence.
proof fn lemma_mismatch(s: Seq<char>, pat: Seq<char>, j: int, k: int)
    requires
        0 <= k < pat.len(),
        0 <= j,
        j + k < s.len(),
        s[j + k] != pat[k],
    ensures
        !matches_at(s, pat, j),
{
    if matches_at(s, pat, j) {
        assert(s.subrange(j, j + pat.len())[k] == s[j + k]);
    }
}

/// A one-character pattern occurs exactly where that character stands.
proof fn lemma_match_char(s: Seq<char>, c: char, j: int)
    ensures
        matches_at(s, seq![c], j) <==> (0 <= j < s.len() && s[j] == c),
{
    if 0 <= j < s.len() && s[j] == c {
        assert(s.subrange(j, j + 1) =~= seq![c]);
    }
    if matches_at(s, seq![c], j) {
        assert(s.subrange(j, j + 1)[0] == s[j]);
    }
}

/// Occurrences in the second part of a concatenation are those of the part.
proof fn lemma_matches_shift(a: Seq<char>, b: Seq<char>, pat: Seq<char>, j: int)
    requires
        0 <= j,
    ensures
        matches_at(a + b, pat, a.len() + j) == matches_at(b, pat, j),
{
    if j + pat.len() <= b.len() {
        assert((a + b).subrange(a.len() + j, a.len() + j + pat.len()) =~= b.subrange(j, j + pat.len()));
    }
}

/// The search starts over after positions where nothing occurs.
proof fn lemma_find_skip(s: Seq<char>, pat: Seq<char>, from: int, to: int)
    requires
        0 <= from <= to,
        forall|j: int| from <= j < to ==> !matches_at(s, pat, j),
    ensures
        find_from(s, pat, from) == find_from(s, pat, to),
    decreases to - from,
{
    if from < to {
        if from + pat.len() <= s.len() {
            assert(!matches_at(s, pat, from));
            lemma_find_skip(s, pat, from + 1, to);
        } else {
            lemma_find_from(s, pat, to);
        }
    }
}

/// The search finds the first occurrence.
proof fn lemma_find_at(s: Seq<char>, pat: Seq<char>, from: int, p: int)
    requires
        0 <= from <= p,
        matches_at(s, pat, p),
        forall|j: int| from <= j < p ==> !matches_at(s, pat, j),
    ensures
        find_from(s, pat, from) == Some(p),
{
    lemma_find_skip(s, pat, from, p);
}

/// The search in the second part of a concatenation.
proof fn lemma_find_shift(a: Seq<char>, b: Seq<char>, pat: Seq<char>, i: int)
    requires
        0 <= i,
    ensures
        find_from(a + b, pat, a.len() + i) == match find_from(b, pat, i) {
            Some(p) => Some(a.len() + p),
            None => None,
        },
    decreases b.len() + 1 - i,
{
    if i + pat.len() <= b.len() {
        assert((a + b).subrange(a.len() + i, a.len() + i + pat.len()) =~= b.subrange(i, i + pat.len()));
        lemma_find_shift(a, b, pat, i + 1);
    }
}

/// No occurrence of a one-character pattern where that character is absent.
proof fn lemma_no_char(s: Seq<char>, c: char, from: int, to: int)
    requires
        forall|j: int| from <= j < to && 0 <= j < s.len() ==> s[j] != c,
    ensures
        forall|j: int| from <= j < to ==> !matches_at(s, seq![c], j),
{
    assert forall|j: int| from <= j < to implies !matches_at(s, seq![c], j) by {
        lemma_match_char(s, c, j);
    }
}

// ---------------------------------------------------------------------------
// Reading entries and quoted texts from text of known shape
// ---------------------------------------------------------------------------

/// Reading entries from the second part of a concatenation.
proof fn lemma_entries_shift(a: Seq<char>, b: Seq<char>, i: int)
    requires
        0 <= i,
    ensures
        entries_from(a + b, a.len() + i) == entries_from(b, i),
    decreases b.len() - i,
{
    if i < b.len() {
        lemma_find_shift(a, b, seq!['{'], i);
        lemma_find_from(b, seq!['{'], i);
        match find_from(b, seq!['{'], i) {
            None => {},
            Some(os) => {
                lemma_find_shift(a, b, seq!['}'], os);
                lemma_find_from(b, seq!['}'], os);
                match find_from(b, seq!['}'], os) {
                    None => {},
                    Some(oe) => {
                        lemma_match_char(b, '{', os);
                        lemma_match_char(b, '}', oe);
                        lemma_entries_shift(a, b, oe + 1);
                        assert((a + b).subrange(a.len() + os + 1, a.len() + oe) =~= b.subrange(os + 1, oe));
                    },
                }
            },
        }
    }
}

/// Reading entries skips text without an opening brace.
proof fn lemma_entries_skip(arr: Seq<char>, pos: int, pos2: int)
    requires
        0 <= pos <= pos2 <= arr.len(),
        forall|j: int| pos <= j < pos2 ==> arr[j] != '{',
    ensures
        entries_from(arr, pos) == entries_from(arr, pos2),
{
    if pos < pos2 {
        lemma_no_char(arr, '{', pos, pos2);
        lemma_find_skip(arr, seq!['{'], pos, pos2);
    }
}

/// Reading quoted texts from the second part of a concatenation.
proof fn lemma_texts_shift(a: Seq<char>, b: Seq<char>, i: int)
    requires
        0 <= i,
    ensures
        quoted_texts_from(a + b, a.len() + i) == quoted_texts_from(b, i),
    decreases b.len() - i,
{
    if i < b.len() {
        lemma_find_shift(a, b, seq!['"'], i);
        lemma_find_from(b, seq!['"'], i);
        match find_from(b, seq!['"'], i) {
            None => {},
            Some(q) => {
                lemma_find_shift(a, b, seq!['"'], q + 1);
                lemma_find_from(b, seq!['"'], q + 1);
                match find_from(b, seq!['"'], q + 1) {
                    None => {},
                    Some(q2) => {
                        lemma_texts_shift(a, b, q2 + 1);
                        assert((a + b).subrange(a.len() + q + 1, a.len() + q2) =~= b.subrange(q + 1, q2));
                    },
                }
            },
        }
    }
}

/// Reading quoted texts skips text without a double quote.
proof fn lemma_texts_skip(arr: Seq<char>, pos: int, pos2: int)
    requires
        0 <= pos <= pos2 <= arr.len(),
        forall|j: int| pos <= j < pos2 ==> arr[j] != '"',
    ensures
        quoted_texts_from(arr, pos) == quoted_texts_from(arr, pos2),
{
    if pos < pos2 {
        lemma_no_char(arr, '"', pos, pos2);
        lemma_find_skip(arr, seq!['"'], pos, pos2);
    }
}

// ---------------------------------------------------------------------------
// One high-score entry
// ---------------------------------------------------------------------------

/// A name that the save file keeps as it is: at most three characters, none
/// of which the file format gives a meaning.
pub open spec fn storable_name(s: Seq<char>) -> bool {
    &&& s.len() <= 3
    &&& forall|i: int| 0 <= i < s.len() ==> {
        let c = #[trigger] s[i];
        c != '"' && c != '\\' && c != '}' && c != ']'
    }
}

/// An entry that the save file keeps as it is.
pub open spec fn storable_entry(e: (Seq<char>, u32, usize)) -> bool {
    storable_name(e.0) && e.2 <= 0x7fff_ffff_ffff_ffff
}

/// The text between the braces of an entry's line.
pub open spec fn entry_inside(e: (Seq<char>, u32, usize)) -> Seq<char> {
    entry_open().skip(5) + e.0 + entry_after_name() + decimal(e.1 as nat) + entry_after_score()
        + decimal(e.2 as nat) + seq![' ']
}

/// Leading whitespace before a non-blank character is dropped.
proof fn lemma_trim_one(s: Seq<char>)
    requires
        s.len() >= 2,
        is_whitespace(s[0]),
        !is_whitespace(s[1]),
    ensures
        trim_start(s) == s.drop_first(),
{
    assert(trim_start(s.drop_first()) == s.drop_first());
}

/// A run of digits followed by something else is read as a number of that
/// length.
proof fn lemma_number_len(d: Seq<char>, r: Seq<char>)
    requires
        all_digits(d),
        r.len() > 0,
        !is_digit(r[0]),
        r[0] != '-',
    ensures
        number_len(d + r) == d.len(),
    decreases d.len(),
{
    if d.len() > 0 {
        assert((d + r).drop_first() =~= d.drop_first() + r);
        assert(is_digit(d[0]));
        lemma_number_len(d.drop_first(), r);
    } else {
        assert(d + r =~= r);
    }
}

/// A decimal numeral reads back as its value.
proof fn lemma_parse_decimal(n: nat)
    requires
        n <= 0x7fff_ffff_ffff_ffff,
    ensures
        parse_i64(decimal(n)) == Some(n as int),
{
    lemma_decimal_value(n);
    assert(is_digit(decimal(n)[0]));
}

/// The number after a field's colon: one space, the digits, then a
/// character that ends them.
proof fn lemma_number_at(o: Seq<char>, field: Seq<char>, v: int, n: nat)
    requires
        field_value_start(o, field) == Some(v),
        0 <= v,
        n <= 0x7fff_ffff_ffff_ffff,
        v + 1 + decimal(n).len() < o.len(),
        o[v] == ' ',
        o.subrange(v + 1, v + 1 + decimal(n).len()) == decimal(n),
        !is_digit(o[v + 1 + decimal(n).len()]),
        o[v + 1 + decimal(n).len()] != '-',
    ensures
        number_field(o, field) == Some(n as int),
{
    lemma_decimal_value(n);
    let d = decimal(n);
    let rest0 = o.skip(v);
    assert(is_digit(d[0]));
    assert(rest0[1] == d[0]);
    lemma_trim_one(rest0);
    let rest = o.skip(v + 1);
    assert(rest0.drop_first() =~= rest);
    let tail = o.skip(v + 1 + d.len());
    assert(rest =~= d + tail);
    lemma_number_len(d, tail);
    assert(rest.take(d.len() as int) =~= d);
    lemma_parse_decimal(n);
}

proof fn lemma_entry_name(e: (Seq<char>, u32, usize))
    requires
        storable_entry(e),
    ensures
        string_field(entry_inside(e), name_field()) == Some(e.0),
{
    let o = entry_inside(e);
    let l = e.0.len() as int;
    let key = quoted(name_field());
    assert(o[0] == ' ');
    assert(o.subrange(1, 7) =~= key);
    lemma_mismatch(o, key, 0, 0);
    lemma_find_at(o, key, 0, 1);
    assert(o[7] == ':');
    lemma_match_char(o, ':', 7);
    lemma_find_at(o, seq![':'], 7, 7);
    assert(field_value_start(o, name_field()) == Some(8int));
    assert(o[8] == ' ' && o[9] == '"');
    lemma_match_char(o, '"', 8);
    lemma_match_char(o, '"', 9);
    lemma_find_at(o, seq!['"'], 8, 9);
    assert forall|j: int| 10 <= j < 10 + l implies o[j] != '"' by {
        assert(o[j] == e.0[j - 10]);
    }
    lemma_no_char(o, '"', 10, 10 + l);
    assert(o[10 + l] == '"');
    lemma_match_char(o, '"', 10 + l);
    lemma_find_at(o, seq!['"'], 10, 10 + l);
    assert(o.subrange(10, 10 + l) =~= e.0);
}

proof fn lemma_entry_score(e: (Seq<char>, u32, usize))
    requires
        storable_entry(e),
    ensures
        number_field(entry_inside(e), score_field()) == Some(e.1 as int),
{
    let o = entry_inside(e);
    let l = e.0.len() as int;
    let key = quoted(score_field());
    lemma_decimal_value(e.1 as nat);
    let d1 = decimal(e.1 as nat).len() as int;
    assert forall|j: int| 0 <= j < 13 + l implies !matches_at(o, key, j) by {
        if j == 1 || j == 6 || j == 10 + l {
            lemma_mismatch(o, key, j, 1);
        } else if j == 9 {
            lemma_mismatch(o, key, 9, 1 + l);
        } else {
            if 10 <= j < 10 + l {
                assert(o[j] == e.0[j - 10]);
            }
            lemma_mismatch(o, key, j, 0);
        }
    }
    assert(o.subrange(13 + l, 20 + l) =~= key);
    lemma_find_at(o, key, 0, 13 + l);
    assert(o[20 + l] == ':');
    lemma_match_char(o, ':', 20 + l);
    lemma_find_at(o, seq![':'], 20 + l, 20 + l);
    assert(field_value_start(o, score_field()) == Some(21 + l));
    assert(o.subrange(22 + l, 22 + l + d1) =~= decimal(e.1 as nat));
    assert(o[22 + l + d1] == ',');
    lemma_number_at(o, score_field(), 21 + l, e.1 as nat);
}

proof fn lemma_entry_stage(e: (Seq<char>, u32, usize))
    requires
        storable_entry(e),
    ensures
        number_field(entry_inside(e), stage_field()) == Some(e.2 as int),
{
    let o = entry_inside(e);
    let l = e.0.len() as int;
    let key = quoted(stage_field());
    lemma_decimal_value(e.1 as nat);
    lemma_decimal_value(e.2 as nat);
    let d1 = decimal(e.1 as nat).len() as int;
    let d2 = decimal(e.2 as nat).len() as int;
    let s = 22 + l + d1;
    assert forall|j: int| 0 <= j < s + 2 implies !matches_at(o, key, j) by {
        if j == 1 || j == 6 || j == 10 + l || j == 19 + l {
            lemma_mismatch(o, key, j, 1);
        } else if j == 9 {
            lemma_mismatch(o, key, 9, 1 + l);
        } else if j == 13 + l {
            lemma_mismatch(o, key, j, 2);
        } else {
            if 10 <= j < 10 + l {
                assert(o[j] == e.0[j - 10]);
            } else if 22 + l <= j < s {
                assert(o[j] == decimal(e.1 as nat)[j - 22 - l]);
            }
            lemma_mismatch(o, key, j, 0);
        }
    }
    assert(o.subrange(s + 2, s + 9) =~= key);
    lemma_find_at(o, key, 0, s + 2);
    assert(o[s + 9] == ':');
    lemma_match_char(o, ':', s + 9);
    lemma_find_at(o, seq![':'], s + 9, s + 9);
    assert(field_value_start(o, stage_field()) == Some(s + 10));
    assert(o.subrange(s + 11, s + 11 + d2) =~= decimal(e.2 as nat));
    assert(o[s + 11 + d2] == ' ');
    lemma_number_at(o, stage_field(), s + 10, e.2 as nat);
}

/// The text between an entry's braces reads back as the entry.
proof fn lemma_entry_inside(e: (Seq<char>, u32, usize))
    requires
        storable_entry(e),
    ensures
        entry_from(entry_inside(e)) == Some(e),
{
    lemma_entry_name(e);
    lemma_entry_score(e);
    lemma_entry_stage(e);
}

/// A name the file keeps as it is is written without escapes.
proof fn lemma_name_plain(name: Seq<char>)
    requires
        storable_name(name),
    ensures
        escaped(name) == name,
{
    assert forall|i: int| 0 <= i < name.len() implies name[i] != '\\' && name[i] != '"' by {
        let c = name[i];
    }
    lemma_escaped_plain(name);
}

/// One entry's line reads back as the entry, and reading goes on after it.
proof fn lemma_entry_line(e: (Seq<char>, u32, usize), more: bool, post: Seq<char>)
    requires
        storable_entry(e),
    ensures
        entries_from(entry_line(e, more) + post, 0) == seq![e] + entries_from(post, 0),
{
    lemma_name_plain(e.0);
    lemma_decimal_value(e.1 as nat);
    lemma_decimal_value(e.2 as nat);
    let line = entry_line(e, more);
    let s = line + post;
    let l = e.0.len() as int;
    let d1 = decimal(e.1 as nat).len() as int;
    let d2 = decimal(e.2 as nat).len() as int;
    let cl = 39 + l + d1 + d2;
    assert(line =~= entry_open() + e.0 + entry_after_name() + decimal(e.1 as nat) + entry_after_score()
        + decimal(e.2 as nat) + entry_close() + line_end(more));
    assert(line.len() == cl + 1 + line_end(more).len());
    // The opening brace.
    lemma_no_char(s, '{', 0, 4);
    assert(s[4] == '{');
    lemma_match_char(s, '{', 4);
    lemma_find_at(s, seq!['{'], 0, 4);
    // The closing brace.
    assert forall|j: int| 4 <= j < cl implies s[j] != '}' by {
        if 15 <= j < 15 + l {
            assert(s[j] == e.0[j - 15]);
        } else if 27 + l <= j < 27 + l + d1 {
            assert(s[j] == decimal(e.1 as nat)[j - 27 - l]);
        } else if 38 + l + d1 <= j < 38 + l + d1 + d2 {
            assert(s[j] == decimal(e.2 as nat)[j - 38 - l - d1]);
        }
    }
    lemma_no_char(s, '}', 4, cl);
    assert(s[cl] == '}');
    lemma_match_char(s, '}', cl);
    lemma_find_at(s, seq!['}'], 4, cl);
    // Between the braces.
    assert(s.subrange(5, cl) =~= entry_inside(e));
    lemma_entry_inside(e);
    // After the closing brace.
    assert forall|j: int| cl + 1 <= j < line.len() implies s[j] != '{' by {
        assert(s[j] == line_end(more)[j - cl - 1]);
    }
    lemma_entries_skip(s, cl + 1, line.len() as int);
    lemma_entries_shift(line, post, 0);
}

/// The lines of the first `n` entries read back as those entries, and
/// reading goes on after them.
proof fn lemma_entry_lines(t: Seq<(Seq<char>, u32, usize)>, n: int, post: Seq<char>)
    requires
        0 <= n <= t.len(),
        forall|i: int| 0 <= i < n ==> storable_entry(#[trigger] t[i]),
    ensures
        entries_from(entry_lines(t, n) + post, 0) == t.take(n) + entries_from(post, 0),
    decreases n,
{
    if n == 0 {
        assert(entry_lines(t, 0) + post =~= post);
        assert(t.take(0) + entries_from(post, 0) =~= entries_from(post, 0));
    } else {
        let line = entry_line(t[n - 1], n < t.len());
        assert(entry_lines(t, n) + post =~= entry_lines(t, n - 1) + (line + post));
        lemma_entry_lines(t, n - 1, line + post);
        lemma_entry_line(t[n - 1], n < t.len(), post);
        assert(t.take(n - 1) + (seq![t[n - 1]] + entries_from(post, 0)) =~= t.take(n) + entries_from(post, 0));
    }
}

/// An entry's line holds no closing bracket.
proof fn lemma_line_no_bracket(e: (Seq<char>, u32, usize), more: bool)
    requires
        storable_entry(e),
    ensures
        forall|j: int| 0 <= j < entry_line(e, more).len() ==> entry_line(e, more)[j] != ']',
{
    lemma_name_plain(e.0);
    lemma_decimal_value(e.1 as nat);
    lemma_decimal_value(e.2 as nat);
    let line = entry_line(e, more);
    let l = e.0.len() as int;
    let d1 = decimal(e.1 as nat).len() as int;
    let d2 = decimal(e.2 as nat).len() as int;
    assert(line =~= entry_open() + e.0 + entry_after_name() + decimal(e.1 as nat) + entry_after_score()
        + decimal(e.2 as nat) + entry_close() + line_end(more));
    assert forall|j: int| 0 <= j < line.len() implies line[j] != ']' by {
        if 15 <= j < 15 + l {
            assert(line[j] == e.0[j - 15]);
        } else if 27 + l <= j < 27 + l + d1 {
            assert(line[j] == decimal(e.1 as nat)[j - 27 - l]);
        } else if 38 + l + d1 <= j < 38 + l + d1 + d2 {
            assert(line[j] == decimal(e.2 as nat)[j - 38 - l - d1]);
        }
    }
}

/// The entries' lines hold no closing bracket.
proof fn lemma_lines_no_bracket(t: Seq<(Seq<char>, u32, usize)>, n: int)
    requires
        0 <= n <= t.len(),
        forall|i: int| 0 <= i < n ==> storable_entry(#[trigger] t[i]),
    ensures
        forall|j: int| 0 <= j < entry_lines(t, n).len() ==> entry_lines(t, n)[j] != ']',
    decreases n,
{
    if n > 0 {
        lemma_lines_no_bracket(t, n - 1);
        lemma_line_no_bracket(t[n - 1], n < t.len());
        let a = entry_lines(t, n - 1);
        let b = entry_line(t[n - 1], n < t.len());
        assert forall|j: int| 0 <= j < entry_lines(t, n).len() implies entry_lines(t, n)[j] != ']' by {
            if j >= a.len() {
                assert(entry_lines(t, n)[j] == b[j - a.len()]);
            } else {
                assert(entry_lines(t, n)[j] == a[j]);
            }
        }
    }
}

/// The bindings' key does not occur in an entry's line.
proof fn lemma_line_no_key(e: (Seq<char>, u32, usize), more: bool, rest: Seq<char>)
    requires
        storable_entry(e),
    ensures
        forall|j: int| 0 <= j < entry_line(e, more).len() ==> !matches_at(entry_line(e, more) + rest, keybindings_key(), j),
{
    lemma_name_plain(e.0);
    lemma_decimal_value(e.1 as nat);
    lemma_decimal_value(e.2 as nat);
    let line = entry_line(e, more);
    let s = line + rest;
    let key = keybindings_key();
    let l = e.0.len() as int;
    let d1 = decimal(e.1 as nat).len() as int;
    let d2 = decimal(e.2 as nat).len() as int;
    assert(line =~= entry_open() + e.0 + entry_after_name() + decimal(e.1 as nat) + entry_after_score()
        + decimal(e.2 as nat) + entry_close() + line_end(more));
    assert forall|j: int| 0 <= j < line.len() implies !matches_at(s, key, j) by {
        if j == 6 || j == 11 || j == 15 + l || j == 18 + l || j == 24 + l || j == 29 + l + d1
            || j == 35 + l + d1 {
            lemma_mismatch(s, key, j, 1);
        } else if j == 14 {
            lemma_mismatch(s, key, j, 1 + l);
        } else {
            if 15 <= j < 15 + l {
                assert(s[j] == e.0[j - 15]);
            } else if 27 + l <= j < 27 + l + d1 {
                assert(s[j] == decimal(e.1 as nat)[j - 27 - l]);
            } else if 38 + l + d1 <= j < 38 + l + d1 + d2 {
                assert(s[j] == decimal(e.2 as nat)[j - 38 - l - d1]);
            }
            lemma_mismatch(s, key, j, 0);
        }
    }
}

/// The bindings' key does not occur in the entries' lines.
proof fn lemma_lines_no_key(t: Seq<(Seq<char>, u32, usize)>, n: int, rest: Seq<char>)
    requires
        0 <= n <= t.len(),
        forall|i: int| 0 <= i < n ==> storable_entry(#[trigger] t[i]),
    ensures
        forall|j: int| 0 <= j < entry_lines(t, n).len() ==> !matches_at(entry_lines(t, n) + rest, keybindings_key(), j),
    decreases n,
{
    if n > 0 {
        let a = entry_lines(t, n - 1);
        let b = entry_line(t[n - 1], n < t.len());
        assert(entry_lines(t, n) + rest =~= a + (b + rest));
        lemma_lines_no_key(t, n - 1, b + rest);
        lemma_line_no_key(t[n - 1], n < t.len(), rest);
        assert forall|j: int| 0 <= j < entry_lines(t, n).len()
            implies !matches_at(entry_lines(t, n) + rest, keybindings_key(), j) by {
            if j >= a.len() {
                lemma_matches_shift(a, b + rest, keybindings_key(), j - a.len());
            }
        }
    }
}

// ---------------------------------------------------------------------------
// The key bindings
// ---------------------------------------------------------------------------

/// A key that the save file keeps: one it can name, other than the double
/// quote and the closing bracket, which would end its text or its list.
pub open spec fn storable_key(k: KeyCode) -> bool {
    &&& is_nameable(k)
    &&& k != KeyCode::Char('"')
    &&& k != KeyCode::Char(']')
}

/// The text the save file holds for a key: its name, escaped.
pub open spec fn written_key(k: KeyCode) -> Seq<char> {
    escaped(key_text(k))
}

/// The texts of the first `n` bindings as the file holds them.
pub open spec fn key_texts(b: KeyBindings, n: int) -> Seq<Seq<char>> {
    Seq::new(n as nat, |i: int| written_key(b.slot(i)))
}

/// The name of a key the file keeps, other than the backslash, holds no
/// quote, backslash or closing bracket.
proof fn lemma_key_text_plain(k: KeyCode)
    requires
        storable_key(k),
        k != KeyCode::Char('\\'),
    ensures
        forall|i: int| 0 <= i < key_text(k).len() ==> {
            let c = #[trigger] key_text(k)[i];
            c != '"' && c != '\\' && c != ']'
        },
        escaped(key_text(k)) == key_text(k),
{
    let t = key_text(k);
    match k {
        KeyCode::F(n) => {
            lemma_decimal_value(n as nat);
            assert forall|i: int| 0 <= i < t.len() implies t[i] != '"' && t[i] != '\\' && t[i] != ']' by {
                if i >= 2 {
                    assert(t[i] == decimal(n as nat)[i - 2]);
                }
            }
        },
        _ => {},
    }
    lemma_escaped_plain(t);
}

/// The text the file holds for a key it keeps has no double quote and no
/// closing bracket, and names that key.
proof fn lemma_written_key(k: KeyCode)
    requires
        storable_key(k),
    ensures
        forall|i: int| 0 <= i < written_key(k).len() ==> {
            let c = #[trigger] written_key(k)[i];
            c != '"' && c != ']'
        },
        key_from_text(written_key(k)) == Some(k),
{
    if k == KeyCode::Char('\\') {
        let t = key_text(k);
        let head = seq!['C', 'h', 'a', 'r', ':'];
        assert(t.drop_last() =~= head);
        assert(t.last() == '\\');
        lemma_escaped_plain(head);
        let w = written_key(k);
        assert(w =~= seq!['C', 'h', 'a', 'r', ':', '\\', '\\']);
        assert(w.take(5) =~= head);
        assert(w.len() == 7);
    } else {
        lemma_key_text_plain(k);
        lemma_key_text_round_trip(k);
    }
}

/// One binding's line reads back as the key's name, and reading goes on
/// after it.
proof fn lemma_key_line(k: KeyCode, more: bool, post: Seq<char>)
    requires
        storable_key(k),
    ensures
        quoted_texts_from(key_line(k, more) + post, 0) == seq![written_key(k)] + quoted_texts_from(post, 0),
{
    lemma_written_key(k);
    let t = written_key(k);
    let line = key_line(k, more);
    let s = line + post;
    let n = t.len() as int;
    assert(line =~= key_open() + t + seq!['"'] + line_end(more));
    lemma_no_char(s, '"', 0, 4);
    assert(s[4] == '"');
    lemma_match_char(s, '"', 4);
    lemma_find_at(s, seq!['"'], 0, 4);
    assert forall|j: int| 5 <= j < 5 + n implies s[j] != '"' by {
        assert(s[j] == t[j - 5]);
    }
    lemma_no_char(s, '"', 5, 5 + n);
    assert(s[5 + n] == '"');
    lemma_match_char(s, '"', 5 + n);
    lemma_find_at(s, seq!['"'], 5, 5 + n);
    assert(s.subrange(5, 5 + n) =~= t);
    assert forall|j: int| 6 + n <= j < line.len() implies s[j] != '"' by {
        assert(s[j] == line_end(more)[j - 6 - n]);
    }
    lemma_texts_skip(s, 6 + n, line.len() as int);
    lemma_texts_shift(line, post, 0);
}

/// The lines of the first `n` bindings read back as their keys' names.
proof fn lemma_key_lines(b: KeyBindings, n: int, post: Seq<char>)
    requires
        0 <= n <= 8,
        forall|i: int| 0 <= i < n ==> storable_key(#[trigger] b.slot(i)),
    ensures
        quoted_texts_from(key_lines(b, n) + post, 0) == key_texts(b, n) + quoted_texts_from(post, 0),
    decreases n,
{
    if n == 0 {
        assert(key_lines(b, 0) + post =~= post);
        assert(key_texts(b, 0) + quoted_texts_from(post, 0) =~= quoted_texts_from(post, 0));
    } else {
        let line = key_line(b.slot(n - 1), n < 8);
        assert(key_lines(b, n) + post =~= key_lines(b, n - 1) + (line + post));
        lemma_key_lines(b, n - 1, line + post);
        lemma_key_line(b.slot(n - 1), n < 8, post);
        assert(key_texts(b, n - 1) + (seq![written_key(b.slot(n - 1))] + quoted_texts_from(post, 0))
            =~= key_texts(b, n) + quoted_texts_from(post, 0));
    }
}

/// The bindings' lines hold no closing bracket.
proof fn lemma_key_lines_no_bracket(b: KeyBindings, n: int)
    requires
        0 <= n <= 8,
        forall|i: int| 0 <= i < n ==> storable_key(#[trigger] b.slot(i)),
    ensures
        forall|j: int| 0 <= j < key_lines(b, n).len() ==> key_lines(b, n)[j] != ']',
    decreases n,
{
    if n > 0 {
        lemma_key_lines_no_bracket(b, n - 1);
        let k = b.slot(n - 1);
        lemma_written_key(k);
        let a = key_lines(b, n - 1);
        let line = key_line(k, n < 8);
        let t = written_key(k);
        assert(line =~= key_open() + t + seq!['"'] + line_end(n < 8));
        assert forall|j: int| 0 <= j < key_lines(b, n).len() implies key_lines(b, n)[j] != ']' by {
            if j >= a.len() {
                let i = j - a.len();
                assert(key_lines(b, n)[j] == line[i]);
                if 5 <= i < 5 + t.len() {
                    assert(line[i] == t[i - 5]);
                }
            } else {
                assert(key_lines(b, n)[j] == a[j]);
            }
        }
    }
}

/// Putting in the keys named by the first `n` texts gives those slots of `b`
/// and leaves the others.
proof fn lemma_apply_key_texts(d: KeyBindings, b: KeyBindings, n: int)
    requires
        0 <= n <= 8,
        forall|i: int| 0 <= i < n ==> storable_key(#[trigger] b.slot(i)),
    ensures
        forall|i: int| 0 <= i < 8 ==> #[trigger] apply_key_texts(d, key_texts(b, 8), n).slot(i)
            == if i < n { b.slot(i) } else { d.slot(i) },
    decreases n,
{
    let keys = key_texts(b, 8);
    if n > 0 {
        lemma_apply_key_texts(d, b, n - 1);
        lemma_written_key(b.slot(n - 1));
        assert(keys[n - 1] == written_key(b.slot(n - 1)));
        let prev = apply_key_texts(d, keys, n - 1);
        assert(apply_key_texts(d, keys, n) == prev.with_slot(n - 1, b.slot(n - 1)));
        assert forall|i: int| 0 <= i < 8 implies #[trigger] prev.with_slot(n - 1, b.slot(n - 1)).slot(i)
            == if i == n - 1 { b.slot(i) } else { prev.slot(i) } by {
            lemma_slot_with_slot(prev, n - 1, b.slot(n - 1), i);
        }
        assert forall|i: int| 0 <= i < 8 implies #[trigger] apply_key_texts(d, keys, n).slot(i)
            == if i < n { b.slot(i) } else { d.slot(i) } by {
            assert(prev.slot(i) == if i < n - 1 { b.slot(i) } else { d.slot(i) });
        }
    } else {
        assert(apply_key_texts(d, keys, 0) == d);
    }
}

/// Reading a slot after setting one.
proof fn lemma_slot_with_slot(kb: KeyBindings, idx: int, k: KeyCode, i: int)
    requires
        0 <= idx < 8,
        0 <= i < 8,
    ensures
        kb.with_slot(idx, k).slot(i) == if i == idx { k } else { kb.slot(i) },
{
}

// ---------------------------------------------------------------------------
// The whole file
// ---------------------------------------------------------------------------

/// A table the save file keeps as it is: at most ten entries, each of which
/// it keeps.
pub open spec fn storable_table(t: Seq<(Seq<char>, u32, usize)>) -> bool {
    &&& t.len() <= 10
    &&& forall|i: int| 0 <= i < t.len() ==> storable_entry(#[trigger] t[i])
}

/// Bindings the save file keeps: each of the eight keys is one it keeps.
pub open spec fn storable_bindings(b: KeyBindings) -> bool {
    forall|i: int| 0 <= i < 8 ==> storable_key(#[trigger] b.slot(i))
}

/// Nothing is read from two blanks.
proof fn lemma_blanks_empty()
    ensures
        entries_from(seq![' ', ' '], 0) == Seq::<(Seq<char>, u32, usize)>::empty(),
        quoted_texts_from(seq![' ', ' '], 0) == Seq::<Seq<char>>::empty(),
{
    let bl = seq![' ', ' '];
    lemma_entries_skip(bl, 0, 2);
    lemma_texts_skip(bl, 0, 2);
}

proof fn lemma_table_round_trip(t: Seq<(Seq<char>, u32, usize)>, b: KeyBindings)
    requires
        storable_table(t),
    ensures
        parsed_table(save_text(t, b)) == t,
{
    let h = json_head();
    let e = entry_lines(t, t.len() as int);
    let rest = json_middle() + key_lines(b, 8) + json_tail();
    let c = save_text(t, b);
    let el = e.len() as int;
    assert(c =~= h + e + rest);
    // The key of the high-score array.
    let hk = high_scores_key();
    assert forall|j: int| 0 <= j < 4 implies !matches_at(c, hk, j) by {
        lemma_mismatch(c, hk, j, 0);
    }
    assert(c.subrange(4, 17) =~= hk);
    lemma_find_at(c, hk, 0, 4);
    // Its opening bracket.
    assert forall|j: int| 4 <= j < 19 implies c[j] != '[' by {}
    lemma_no_char(c, '[', 4, 19);
    lemma_match_char(c, '[', 19);
    lemma_find_at(c, seq!['['], 4, 19);
    // Its closing bracket.
    lemma_lines_no_bracket(t, t.len() as int);
    assert forall|j: int| 19 <= j < 23 + el implies c[j] != ']' by {
        if 21 <= j < 21 + el {
            assert(c[j] == e[j - 21]);
        }
    }
    lemma_no_char(c, ']', 19, 23 + el);
    assert(c[23 + el] == ']');
    lemma_match_char(c, ']', 23 + el);
    lemma_find_at(c, seq![']'], 19, 23 + el);
    assert(array_after(c, hk) == Some(c.subrange(20, 23 + el)));
    // The entries in it.
    let bl = seq![' ', ' '];
    let arr = c.subrange(20, 23 + el);
    assert(arr =~= seq!['\n'] + (e + bl));
    lemma_entries_skip(arr, 0, 1);
    lemma_entries_shift(seq!['\n'], e + bl, 0);
    lemma_entry_lines(t, t.len() as int, bl);
    lemma_blanks_empty();
    assert(t.take(t.len() as int) + Seq::<(Seq<char>, u32, usize)>::empty() =~= t);
}

proof fn lemma_bindings_round_trip(t: Seq<(Seq<char>, u32, usize)>, b: KeyBindings)
    requires
        storable_table(t),
        storable_bindings(b),
    ensures
        parsed_bindings(save_text(t, b)) == b,
{
    let h = json_head();
    let e = entry_lines(t, t.len() as int);
    let m = json_middle();
    let k = key_lines(b, 8);
    let tail = json_tail();
    let c = save_text(t, b);
    let el = e.len() as int;
    let kl = k.len() as int;
    let p = 21 + el;
    assert(c =~= h + (e + (m + k + tail)));
    // The key of the bindings array: not in the head, not in the entries.
    let kk = keybindings_key();
    assert forall|j: int| 0 <= j < 21 implies !matches_at(c, kk, j) by {
        if j == 4 || j == 16 {
            lemma_mismatch(c, kk, j, 1);
        } else {
            lemma_mismatch(c, kk, j, 0);
        }
    }
    lemma_lines_no_key(t, t.len() as int, m + k + tail);
    assert forall|j: int| 21 <= j < p implies !matches_at(c, kk, j) by {
        lemma_matches_shift(h, e + (m + k + tail), kk, j - 21);
    }
    assert forall|j: int| p <= j < p + 7 implies !matches_at(c, kk, j) by {
        assert(c[j] == m[j - p]);
        lemma_mismatch(c, kk, j, 0);
    }
    assert(c.subrange(p + 7, p + 20) =~= kk);
    lemma_find_at(c, kk, 0, p + 7);
    // Its opening bracket.
    assert forall|j: int| p + 7 <= j < p + 22 implies c[j] != '[' by {
        assert(c[j] == m[j - p]);
    }
    lemma_no_char(c, '[', p + 7, p + 22);
    assert(c[p + 22] == '[');
    lemma_match_char(c, '[', p + 22);
    lemma_find_at(c, seq!['['], p + 7, p + 22);
    // Its closing bracket.
    lemma_key_lines_no_bracket(b, 8);
    assert forall|j: int| p + 22 <= j < p + 26 + kl implies c[j] != ']' by {
        if p + 24 <= j < p + 24 + kl {
            assert(c[j] == k[j - p - 24]);
        }
    }
    lemma_no_char(c, ']', p + 22, p + 26 + kl);
    assert(c[p + 26 + kl] == ']');
    lemma_match_char(c, ']', p + 26 + kl);
    lemma_find_at(c, seq![']'], p + 22, p + 26 + kl);
    assert(array_after(c, kk) == Some(c.subrange(p + 23, p + 26 + kl)));
    // The texts in it.
    let bl = seq![' ', ' '];
    let arr = c.subrange(p + 23, p + 26 + kl);
    assert(arr =~= seq!['\n'] + (k + bl));
    lemma_texts_skip(arr, 0, 1);
    lemma_texts_shift(seq!['\n'], k + bl, 0);
    lemma_key_lines(b, 8, bl);
    lemma_blanks_empty();
    let keys = key_texts(b, 8);
    assert(quoted_texts_from(arr, 0) =~= keys);
    // The keys they name.
    let d = KeyBindings::spec_default();
    lemma_apply_key_texts(d, b, 8);
    let r = apply_key_texts(d, keys, 8);
    assert(r.slot(0) == b.slot(0) && r.slot(1) == b.slot(1) && r.slot(2) == b.slot(2) && r.slot(3) == b.slot(3));
    assert(r.slot(4) == b.slot(4) && r.slot(5) == b.slot(5) && r.slot(6) == b.slot(6) && r.slot(7) == b.slot(7));
}

/// Writing the save data and reading the file back gives the same
/// high-score table and the same key bindings, for every table of at most
/// ten entries whose names are at most three characters long and hold no
/// double quote, backslash, closing brace or closing bracket, whose stages
/// fit in an `i64`, and for bindings whose keys the file can name (no
/// modifier or unknown key, and no double quote or closing bracket as a
/// character key).
pub proof fn lemma_save_round_trip(data: SaveData)
    requires
        storable_table(data.table()),
        storable_bindings(data.keybindings),
    ensures
        parsed_table(save_text(data.table(), data.keybindings)) == data.table(),
        parsed_bindings(save_text(data.table(), data.keybindings)) == data.keybindings,
{
    lemma_table_round_trip(data.table(), data.keybindings);
    lemma_bindings_round_trip(data.table(), data.keybindings);
}

} // verus!
