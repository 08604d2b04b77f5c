use vstd::prelude::*;
use crate::keybinds::{KeyBindings, KeyCode, key_text, key_from_text, keycode_text, keycode_from_chars};
use crate::text::{
    chars_to_string, decimal, find_char, find_chars, find_from, lemma_find_from, parse_i64,
    parse_i64_chars, push_decimal, str_chars, sub_chars, is_digit, is_whitespace, char_is_digit,
    char_is_whitespace,
};

verus! {

/// The most entries the high-score table keeps.
pub const MAX_HIGH_SCORES: usize = 10;

/// One row of the high-score table.
#[derive(Clone)]
pub struct HighScoreEntry {
    pub name: String,
    pub score: u32,
    pub stage: usize,
}

impl View for HighScoreEntry {
    type V = (Seq<char>, u32, usize);

    open spec fn view(&self) -> (Seq<char>, u32, usize) {
        (self.name@, self.score, self.stage)
    }
}

/// What the game keeps between runs: the high-score table (best first) and
/// the key bindings.
pub struct SaveData {
    pub high_scores: Vec<HighScoreEntry>,
    pub keybindings: KeyBindings,
}

/// The scores of a table, in order.
pub open spec fn scores_of(t: Seq<(Seq<char>, u32, usize)>) -> Seq<u32> {
    t.map_values(|e: (Seq<char>, u32, usize)| e.1)
}

/// A table is ordered best first: no entry scores more than one before it.
pub open spec fn ordered(t: Seq<(Seq<char>, u32, usize)>) -> bool {
    forall|i: int, j: int| 0 <= i <= j < t.len() ==> t[j].1 <= t[i].1
}

/// The rank at which `score` enters a table with scores `s`: the first
/// position whose score it beats, else the end if the table has room; no
/// rank for a score of zero.
pub open spec fn qualifying_rank(s: Seq<u32>, score: u32) -> Option<int> {
    if score == 0 {
        None
    } else if exists|i: int| 0 <= i < s.len() && score > s[i] {
        Some(choose|i: int| 0 <= i < s.len() && score > s[i]
            && forall|j: int| 0 <= j < i ==> score <= s[j])
    } else if s.len() < 10 {
        Some(s.len() as int)
    } else {
        None
    }
}

/// `t` with `e` at position `rank`, cut to the ten best.
pub open spec fn table_insert(t: Seq<(Seq<char>, u32, usize)>, rank: int, e: (Seq<char>, u32, usize))
    -> Seq<(Seq<char>, u32, usize)>
{
    let u = t.insert(rank, e);
    if u.len() > 10 { u.take(10) } else { u }
}

impl SaveData {
    pub open spec fn table(self) -> Seq<(Seq<char>, u32, usize)> {
        self.high_scores@.map_values(|e: HighScoreEntry| e@)
    }

    /// An empty table and the default bindings.
    pub fn default() -> (d: Self)
        ensures
            d.table() == Seq::<(Seq<char>, u32, usize)>::empty(),
            d.keybindings == KeyBindings::spec_default(),
    {
        let d = SaveData { high_scores: Vec::new(), keybindings: KeyBindings::default() };
        assert(d.table() =~= Seq::<(Seq<char>, u32, usize)>::empty());
        d
    }

    /// The rank (0-based) at which `score` would enter the top ten, if any.
    pub fn qualifies(&self, score: u32) -> (r: Option<usize>)
        ensures
            match qualifying_rank(scores_of(self.table()), score) {
                Some(k) => r == Some(k as usize),
                None => r is None,
            },
    {
        let ghost s = scores_of(self.table());
        if score == 0 {
            return None;
        }
        let mut i: usize = 0;
        while i < self.high_scores.len()
            invariant
                s == scores_of(self.table()),
                s.len() == self.high_scores@.len(),
                i <= s.len(),
                forall|j: int| 0 <= j < i ==> score <= s[j],
            decreases self.high_scores@.len() - i,
        {
            if score > self.high_scores[i].score {
                assert(s[i as int] == self.high_scores@[i as int].score);
                let ghost k = choose|k: int| 0 <= k < s.len() && score > s[k]
                    && forall|j: int| 0 <= j < k ==> score <= s[j];
                assert(0 <= k < s.len() && score > s[k] && forall|j: int| 0 <= j < k ==> score <= s[j]);
                assert(k == i) by {
                    if k < i {
                        assert(score <= s[k]);
                    }
                    if k > i {
                        assert(score <= s[i as int]);
                    }
                }
                return Some(i);
            }
            assert(s[i as int] == self.high_scores@[i as int].score);
            i = i + 1;
        }
        if self.high_scores.len() < MAX_HIGH_SCORES {
            Some(self.high_scores.len())
        } else {
            None
        }
    }

    /// Puts a new entry at `rank` and keeps the ten best.
    pub fn insert(&mut self, rank: usize, name: String, score: u32, stage: usize)
        requires
            rank <= old(self).high_scores@.len(),
        ensures
            final(self).table() == table_insert(old(self).table(), rank as int, (name@, score, stage)),
            final(self).keybindings == old(self).keybindings,
    {
        let ghost e = HighScoreEntry { name, score, stage };
        self.high_scores.insert(rank, HighScoreEntry { name, score, stage });
        self.high_scores.truncate(MAX_HIGH_SCORES);
        assert(self.table() =~= table_insert(old(self).table(), rank as int, (name@, score, stage)));
    }

    /// The best score in the table, 0 when it is empty.
    pub fn top_score(&self) -> (r: u32)
        ensures
            r == (if self.table().len() == 0 { 0 } else { self.table()[0].1 }),
    {
        if self.high_scores.len() == 0 {
            0
        } else {
            self.high_scores[0].score
        }
    }
}

/// Entering a table at the rank that `qualifies` gives keeps it ordered best
/// first and at most ten long, and puts the new entry at that rank.
pub proof fn lemma_insert_at_rank_keeps_order(
    t: Seq<(Seq<char>, u32, usize)>,
    e: (Seq<char>, u32, usize),
)
    requires
        ordered(t),
        t.len() <= 10,
        qualifying_rank(scores_of(t), e.1) is Some,
    ensures
        ({
            let k = qualifying_rank(scores_of(t), e.1).unwrap();
            let u = table_insert(t, k, e);
            &&& ordered(u)
            &&& u.len() <= 10
            &&& u[k] == e
            &&& u.len() == if t.len() < 10 { t.len() + 1 } else { 10 }
        }),
{
    let s = scores_of(t);
    let k = qualifying_rank(s, e.1).unwrap();
    if exists|i: int| 0 <= i < s.len() && e.1 > s[i] {
        let w = choose|i: int| 0 <= i < s.len() && e.1 > s[i]
            && forall|j: int| 0 <= j < i ==> e.1 <= s[j];
        assert(exists|i: int| 0 <= i < s.len() && e.1 > s[i]
            && forall|j: int| 0 <= j < i ==> e.1 <= s[j]) by {
            let i0 = choose|i: int| 0 <= i < s.len() && e.1 > s[i];
            lemma_first_beaten(s, e.1, i0);
        }
        assert(k == w);
    }
    let ins = t.insert(k, e);
    assert forall|i: int, j: int| 0 <= i <= j < ins.len() implies ins[j].1 <= ins[i].1 by {
        if i < k && j < k {
        } else if i < k && j == k {
            assert(s[i] == t[i].1);
        } else if i < k && j > k {
            assert(ins[j] == t[j - 1]);
        } else if i == k && j > k {
            assert(ins[j] == t[j - 1]);
            assert(s[k] == t[k].1);
        } else if i > k {
            assert(ins[j] == t[j - 1]);
            assert(ins[i] == t[i - 1]);
        }
    }
}

/// Below the first score that `score` beats lie only scores it does not beat.
proof fn lemma_first_beaten(s: Seq<u32>, score: u32, i0: int)
    requires
        0 <= i0 < s.len(),
        score > s[i0],
    ensures
        exists|i: int| 0 <= i < s.len() && score > s[i] && forall|j: int| 0 <= j < i ==> score <= s[j],
    decreases i0,
{
    if exists|j: int| 0 <= j < i0 && score > s[j] {
        let j = choose|j: int| 0 <= j < i0 && score > s[j];
        lemma_first_beaten(s, score, j);
    } else {
        assert(forall|j: int| 0 <= j < i0 ==> score <= s[j]);
    }
}

// ---------------------------------------------------------------------------
// Escaping
// ---------------------------------------------------------------------------

/// The text with every backslash and double quote preceded by a backslash.
pub open spec fn escaped(s: Seq<char>) -> Seq<char>
    decreases s.len(),
{
    if s.len() == 0 {
        Seq::empty()
    } else {
        let c = s.last();
        escaped(s.drop_last()) + (if c == '\\' {
            seq!['\\', '\\']
        } else if c == '"' {
            seq!['\\', '"']
        } else {
            seq![c]
        })
    }
}

pub fn push_escaped(out: &mut Vec<char>, s: &Vec<char>)
    ensures
        final(out)@ == old(out)@ + escaped(s@),
{
    let mut i: usize = 0;
    while i < s.len()
        invariant
            i <= s@.len(),
            out@ == old(out)@ + escaped(s@.take(i as int)),
        decreases s@.len() - i,
    {
        let c = s[i];
        if c == '\\' {
            out.push('\\');
            out.push('\\');
        } else if c == '"' {
            out.push('\\');
            out.push('"');
        } else {
            out.push(c);
        }
        proof {
            assert(s@.take(i + 1).drop_last() =~= s@.take(i as int));
            assert(s@.take(i + 1).last() == c);
        }
        i = i + 1;
        assert(out@ =~= old(out)@ + escaped(s@.take(i as int)));
    }
    assert(s@.take(i as int) =~= s@);
}

/// Escapes backslashes and double quotes for a JSON string.
pub fn escape_json(s: &str) -> (r: String)
    ensures
        r@ == escaped(s@),
{
    let v = str_chars(s);
    let mut out: Vec<char> = Vec::new();
    push_escaped(&mut out, &v);
    assert(out@ =~= escaped(s@));
    chars_to_string(&out)
}

/// Text without backslashes or double quotes is its own escape.
pub proof fn lemma_escaped_plain(s: Seq<char>)
    requires
        forall|i: int| 0 <= i < s.len() ==> s[i] != '\\' && s[i] != '"',
    ensures
        escaped(s) == s,
    decreases s.len(),
{
    if s.len() > 0 {
        lemma_escaped_plain(s.drop_last());
        assert(s.drop_last().push(s.last()) =~= s);
        assert(s.last() == s[s.len() - 1]);
    }
}

/// How many backslashes and double quotes `s` holds.
pub open spec fn escapes_needed(s: Seq<char>) -> nat
    decreases s.len(),
{
    if s.len() == 0 {
        0
    } else {
        escapes_needed(s.drop_last()) + if s.last() == '\\' || s.last() == '"' { 1nat } else { 0nat }
    }
}

/// Escaping adds one backslash for each backslash and double quote.
pub proof fn lemma_escaped_len(s: Seq<char>)
    ensures
        escaped(s).len() == s.len() + escapes_needed(s),
    decreases s.len(),
{
    if s.len() > 0 {
        lemma_escaped_len(s.drop_last());
    }
}

// ---------------------------------------------------------------------------
// The save file
// ---------------------------------------------------------------------------

pub open spec fn json_head() -> Seq<char> {
    seq!['{', '\n', ' ', ' ', '"', 'h', 'i', 'g', 'h', '_', 's', 'c', 'o', 'r', 'e', 's', '"', ':', ' ', '[', '\n']
}

pub open spec fn entry_open() -> Seq<char> {
    seq![' ', ' ', ' ', ' ', '{', ' ', '"', 'n', 'a', 'm', 'e', '"', ':', ' ', '"']
}

pub open spec fn entry_after_name() -> Seq<char> {
    seq!['"', ',', ' ', '"', 's', 'c', 'o', 'r', 'e', '"', ':', ' ']
}

pub open spec fn entry_after_score() -> Seq<char> {
    seq![',', ' ', '"', 's', 't', 'a', 'g', 'e', '"', ':', ' ']
}

pub open spec fn entry_close() -> Seq<char> {
    seq![' ', '}']
}

pub open spec fn json_middle() -> Seq<char> {
    seq![' ', ' ', ']', ',', '\n', ' ', ' ', '"', 'k', 'e', 'y', 'b', 'i', 'n', 'd', 'i', 'n', 'g', 's', '"', ':', ' ', '[', '\n']
}

pub open spec fn key_open() -> Seq<char> {
    seq![' ', ' ', ' ', ' ', '"']
}

pub open spec fn json_tail() -> Seq<char> {
    seq![' ', ' ', ']', '\n', '}', '\n']
}

/// A comma when more lines follow, then the end of the line.
pub open spec fn line_end(more: bool) -> Seq<char> {
    if more { seq![',', '\n'] } else { seq!['\n'] }
}

/// One high-score line of the save file.
pub open spec fn entry_line(e: (Seq<char>, u32, usize), more: bool) -> Seq<char> {
    entry_open() + escaped(e.0) + entry_after_name() + decimal(e.1 as nat) + entry_after_score()
        + decimal(e.2 as nat) + entry_close() + line_end(more)
}

/// The lines of the first `n` entries of `t`.
pub open spec fn entry_lines(t: Seq<(Seq<char>, u32, usize)>, n: int) -> Seq<char>
    decreases n,
{
    if n <= 0 {
        Seq::empty()
    } else {
        entry_lines(t, n - 1) + entry_line(t[n - 1], n < t.len())
    }
}

/// One key-binding line of the save file.
pub open spec fn key_line(k: KeyCode, more: bool) -> Seq<char> {
    key_open() + escaped(key_text(k)) + seq!['"'] + line_end(more)
}

/// The lines of the first `n` key bindings.
pub open spec fn key_lines(b: KeyBindings, n: int) -> Seq<char>
    decreases n,
{
    if n <= 0 {
        Seq::empty()
    } else {
        key_lines(b, n - 1) + key_line(b.slot(n - 1), n < 8)
    }
}

/// The whole save file.
pub open spec fn save_text(t: Seq<(Seq<char>, u32, usize)>, b: KeyBindings) -> Seq<char> {
    json_head() + entry_lines(t, t.len() as int) + json_middle() + key_lines(b, 8) + json_tail()
}

impl SaveData {
    pub fn to_json_chars(&self) -> (r: Vec<char>)
        ensures
            r@ == save_text(self.table(), self.keybindings),
    {
        let ghost t = self.table();
        let mut out: Vec<char> = Vec::new();
        out.append(&mut vec!['{', '\n', ' ', ' ', '"', 'h', 'i', 'g', 'h', '_', 's', 'c', 'o', 'r', 'e', 's', '"', ':', ' ', '[', '\n']);
        assert(out@ =~= json_head());
        let n = self.high_scores.len();
        let mut i: usize = 0;
        while i < n
            invariant
                n == self.high_scores@.len(),
                t == self.table(),
                t.len() == n,
                i <= n,
                out@ == json_head() + entry_lines(t, i as int),
            decreases n - i,
        {
            let ghost before = out@;
            let e = &self.high_scores[i];
            out.append(&mut vec![' ', ' ', ' ', ' ', '{', ' ', '"', 'n', 'a', 'm', 'e', '"', ':', ' ', '"']);
            let name = str_chars(e.name.as_str());
            push_escaped(&mut out, &name);
            out.append(&mut vec!['"', ',', ' ', '"', 's', 'c', 'o', 'r', 'e', '"', ':', ' ']);
            push_decimal(&mut out, e.score as u64);
            out.append(&mut vec![',', ' ', '"', 's', 't', 'a', 'g', 'e', '"', ':', ' ']);
            push_decimal(&mut out, e.stage as u64);
            out.append(&mut vec![' ', '}']);
            if i + 1 < n {
                out.push(',');
            }
            out.push('\n');
            proof {
                assert(t[i as int] == self.high_scores@[i as int]@);
                assert(out@ =~= before + entry_line(t[i as int], i + 1 < n));
            }
            i = i + 1;
        }
        out.append(&mut vec![' ', ' ', ']', ',', '\n', ' ', ' ', '"', 'k', 'e', 'y', 'b', 'i', 'n', 'd', 'i', 'n', 'g', 's', '"', ':', ' ', '[', '\n']);
        let ghost mid = out@;
        assert(mid =~= json_head() + entry_lines(t, t.len() as int) + json_middle());
        let mut k: usize = 0;
        while k < 8
            invariant
                k <= 8,
                out@ == mid + key_lines(self.keybindings, k as int),
            decreases 8 - k,
        {
            let ghost before = out@;
            let key = self.keybindings.get(k);
            out.append(&mut vec![' ', ' ', ' ', ' ', '"']);
            let text = keycode_text(key);
            push_escaped(&mut out, &text);
            out.push('"');
            if k < 7 {
                out.push(',');
            }
            out.push('\n');
            assert(out@ =~= before + key_line(self.keybindings.slot(k as int), k + 1 < 8));
            k = k + 1;
        }
        out.append(&mut vec![' ', ' ', ']', '\n', '}', '\n']);
        assert(out@ =~= save_text(t, self.keybindings));
        out
    }

    /// The save file: the high-score table and the key bindings as JSON.
    pub fn to_json(&self) -> (r: String)
        ensures
            r@ == save_text(self.table(), self.keybindings),
    {
        chars_to_string(&self.to_json_chars())
    }
}

// ---------------------------------------------------------------------------
// Reading the save file back
// ---------------------------------------------------------------------------

/// `"field"`: a field name in double quotes.
pub open spec fn quoted(field: Seq<char>) -> Seq<char> {
    seq!['"'] + field + seq!['"']
}

/// Where the value of `"field":` starts in `obj`: just after the first colon
/// that follows the first occurrence of the quoted name.
pub open spec fn field_value_start(obj: Seq<char>, field: Seq<char>) -> Option<int> {
    match find_from(obj, quoted(field), 0) {
        None => None,
        Some(pos) => match find_from(obj, seq![':'], pos + field.len() + 2) {
            None => None,
            Some(colon) => Some(colon + 1),
        },
    }
}

/// The text between the first pair of double quotes after `"field":`.
pub open spec fn string_field(obj: Seq<char>, field: Seq<char>) -> Option<Seq<char>> {
    match field_value_start(obj, field) {
        None => None,
        Some(v) => match find_from(obj, seq!['"'], v) {
            None => None,
            Some(q) => match find_from(obj, seq!['"'], q + 1) {
                None => None,
                Some(q2) => Some(obj.subrange(q + 1, q2)),
            },
        },
    }
}

/// `s` without its leading whitespace.
pub open spec fn trim_start(s: Seq<char>) -> Seq<char>
    decreases s.len(),
{
    if s.len() > 0 && is_whitespace(s[0]) {
        trim_start(s.drop_first())
    } else {
        s
    }
}

/// How many leading characters of `s` are digits or minus signs.
pub open spec fn number_len(s: Seq<char>) -> int
    decreases s.len(),
{
    if s.len() > 0 && (is_digit(s[0]) || s[0] == '-') {
        1 + number_len(s.drop_first())
    } else {
        0
    }
}

/// The number after `"field":`, past any whitespace: the longest run of
/// digits and minus signs, read as an `i64`.
pub open spec fn number_field(obj: Seq<char>, field: Seq<char>) -> Option<int> {
    match field_value_start(obj, field) {
        None => None,
        Some(v) => {
            let rest = trim_start(obj.skip(v));
            parse_i64(rest.take(number_len(rest)))
        },
    }
}

pub open spec fn name_field() -> Seq<char> {
    seq!['n', 'a', 'm', 'e']
}

pub open spec fn score_field() -> Seq<char> {
    seq!['s', 'c', 'o', 'r', 'e']
}

pub open spec fn stage_field() -> Seq<char> {
    seq!['s', 't', 'a', 'g', 'e']
}

/// The first three characters of `s` (all of it when shorter).
pub open spec fn first_three(s: Seq<char>) -> Seq<char> {
    if s.len() > 3 { s.take(3) } else { s }
}

/// One high-score entry read from the text between its braces.
pub open spec fn entry_from(obj: Seq<char>) -> Option<(Seq<char>, u32, usize)> {
    match (string_field(obj, name_field()), number_field(obj, score_field()), number_field(obj, stage_field())) {
        (Some(name), Some(score), Some(stage)) => Some((first_three(name), score as u32, stage as usize)),
        _ => None,
    }
}

/// The entries read from the `{ ... }` groups of `arr`, from position `pos`.
pub open spec fn entries_from(arr: Seq<char>, pos: int) -> Seq<(Seq<char>, u32, usize)>
    decreases arr.len() - pos,
{
    if pos < 0 || pos >= arr.len() {
        Seq::empty()
    } else {
        match find_from(arr, seq!['{'], pos) {
            None => Seq::empty(),
            Some(os) => match find_from(arr, seq!['}'], os) {
                None => Seq::empty(),
                Some(oe) => {
                    proof {
                        lemma_find_from(arr, seq!['{'], pos);
                        lemma_find_from(arr, seq!['}'], os);
                    }
                    let rest = entries_from(arr, oe + 1);
                    match entry_from(arr.subrange(os + 1, oe)) {
                        Some(e) => seq![e] + rest,
                        None => rest,
                    }
                },
            },
        }
    }
}

/// The texts between successive pairs of double quotes in `arr`, from `pos`.
pub open spec fn quoted_texts_from(arr: Seq<char>, pos: int) -> Seq<Seq<char>>
    decreases arr.len() - pos,
{
    if pos < 0 || pos >= arr.len() {
        Seq::empty()
    } else {
        match find_from(arr, seq!['"'], pos) {
            None => Seq::empty(),
            Some(q) => match find_from(arr, seq!['"'], q + 1) {
                None => Seq::empty(),
                Some(q2) => {
                    proof {
                        lemma_find_from(arr, seq!['"'], pos);
                        lemma_find_from(arr, seq!['"'], q + 1);
                    }
                    seq![arr.subrange(q + 1, q2)] + quoted_texts_from(arr, q2 + 1)
                },
            },
        }
    }
}

/// The text between the first `[` after the first occurrence of `key` and
/// the first `]` after that.
pub open spec fn array_after(c: Seq<char>, key: Seq<char>) -> Option<Seq<char>> {
    match find_from(c, key, 0) {
        None => None,
        Some(k) => match find_from(c, seq!['['], k) {
            None => None,
            Some(a) => match find_from(c, seq![']'], a) {
                None => None,
                Some(e) => Some(c.subrange(a + 1, e)),
            },
        },
    }
}

pub open spec fn high_scores_key() -> Seq<char> {
    seq!['"', 'h', 'i', 'g', 'h', '_', 's', 'c', 'o', 'r', 'e', 's', '"']
}

pub open spec fn keybindings_key() -> Seq<char> {
    seq!['"', 'k', 'e', 'y', 'b', 'i', 'n', 'd', 'i', 'n', 'g', 's', '"']
}

/// `b` with binding `i` replaced by the key that `keys[i]` names, for each
/// `i < n` whose text names a key.
pub open spec fn apply_key_texts(b: KeyBindings, keys: Seq<Seq<char>>, n: int) -> KeyBindings
    decreases n,
{
    if n <= 0 {
        b
    } else {
        let prev = apply_key_texts(b, keys, n - 1);
        match key_from_text(keys[n - 1]) {
            Some(k) => prev.with_slot(n - 1, k),
            None => prev,
        }
    }
}

/// The high-score table that a save file holds: at most the first ten
/// entries that read correctly.
pub open spec fn parsed_table(c: Seq<char>) -> Seq<(Seq<char>, u32, usize)> {
    let all = match array_after(c, high_scores_key()) {
        None => Seq::empty(),
        Some(arr) => entries_from(arr, 0),
    };
    if all.len() > 10 { all.take(10) } else { all }
}

/// The key bindings that a save file holds: the defaults, with each of the
/// first eight texts that names a key put in its slot.
pub open spec fn parsed_bindings(c: Seq<char>) -> KeyBindings {
    match array_after(c, keybindings_key()) {
        None => KeyBindings::spec_default(),
        Some(arr) => {
            let keys = quoted_texts_from(arr, 0);
            apply_key_texts(KeyBindings::spec_default(), keys, if keys.len() > 8 { 8 } else { keys.len() as int })
        },
    }
}

fn field_value_start_chars(obj: &Vec<char>, field: &Vec<char>) -> (r: Option<usize>)
    ensures
        match field_value_start(obj@, field@) {
            Some(v) => r matches Some(x) && x as int == v,
            None => r is None,
        },
        r matches Some(x) ==> x <= obj.len(),
{
    let mut key: Vec<char> = vec!['"'];
    let mut f = field.clone();
    key.append(&mut f);
    key.push('"');
    assert(key@ =~= quoted(field@));
    let pos = match find_chars(obj, &key, 0) {
        Some(p) => p,
        None => return None,
    };
    proof { lemma_find_from(obj@, quoted(field@), 0); }
    let after_key = pos + key.len();
    let colon = match find_char(obj, ':', after_key) {
        Some(c) => c,
        None => return None,
    };
    proof { lemma_find_from(obj@, seq![':'], after_key as int); }
    Some(colon + 1)
}

/// The text in quotes after `"field":` in `obj`, if any.
pub fn extract_string_field_chars(obj: &Vec<char>, field: &Vec<char>) -> (r: Option<Vec<char>>)
    ensures
        match string_field(obj@, field@) {
            Some(v) => r matches Some(x) && x@ == v,
            None => r is None,
        },
{
    let v = match field_value_start_chars(obj, field) {
        Some(v) => v,
        None => return None,
    };
    let q = match find_char(obj, '"', v) {
        Some(q) => q,
        None => return None,
    };
    proof { lemma_find_from(obj@, seq!['"'], v as int); }
    let q2 = match find_char(obj, '"', q + 1) {
        Some(q2) => q2,
        None => return None,
    };
    proof { lemma_find_from(obj@, seq!['"'], q + 1); }
    Some(sub_chars(obj, q + 1, q2))
}

/// The number after `"field":` in `obj`, if it reads as an `i64`.
pub fn extract_number_field_chars(obj: &Vec<char>, field: &Vec<char>) -> (r: Option<i64>)
    ensures
        match number_field(obj@, field@) {
            Some(v) => r == Some(v as i64),
            None => r is None,
        },
{
    let v = match field_value_start_chars(obj, field) {
        Some(v) => v,
        None => return None,
    };
    proof { lemma_find_from(obj@, quoted(field@), 0); }
    let mut start = v;
    assert(trim_start(obj@.skip(v as int)) == trim_start(obj@.skip(start as int)));
    while start < obj.len() && char_is_whitespace(obj[start])
        invariant
            v <= start <= obj@.len(),
            trim_start(obj@.skip(v as int)) == trim_start(obj@.skip(start as int)),
        decreases obj@.len() - start,
    {
        assert(obj@.skip(start as int).drop_first() =~= obj@.skip(start + 1));
        start = start + 1;
    }
    let ghost rest = obj@.skip(start as int);
    assert(trim_start(rest) == rest);
    let mut end = start;
    assert(number_len(rest) == (end - start) + number_len(obj@.skip(end as int)));
    while end < obj.len() && (char_is_digit(obj[end]) || obj[end] == '-')
        invariant
            start <= end <= obj@.len(),
            rest == obj@.skip(start as int),
            number_len(rest) == (end - start) + number_len(obj@.skip(end as int)),
        decreases obj@.len() - end,
    {
        assert(obj@.skip(end as int).drop_first() =~= obj@.skip(end + 1));
        end = end + 1;
    }
    assert(number_len(obj@.skip(end as int)) == 0);
    let num = sub_chars(obj, start, end);
    assert(num@ =~= rest.take(number_len(rest)));
    parse_i64_chars(&num)
}

impl SaveData {
    /// One high-score entry from the text between its braces.
    pub fn parse_score_entry_chars(obj: &Vec<char>) -> (r: Option<HighScoreEntry>)
        ensures
            match entry_from(obj@) {
                Some(e) => r matches Some(x) && x@ == e,
                None => r is None,
            },
    {
        let name_key = vec!['n', 'a', 'm', 'e'];
        let score_key = vec!['s', 'c', 'o', 'r', 'e'];
        let stage_key = vec!['s', 't', 'a', 'g', 'e'];
        assert(name_key@ =~= name_field());
        assert(score_key@ =~= score_field());
        assert(stage_key@ =~= stage_field());
        let name = match extract_string_field_chars(obj, &name_key) {
            Some(n) => n,
            None => return None,
        };
        let score = match extract_number_field_chars(obj, &score_key) {
            Some(s) => s,
            None => return None,
        };
        let stage = match extract_number_field_chars(obj, &stage_key) {
            Some(s) => s,
            None => return None,
        };
        let short = if name.len() > 3 { sub_chars(&name, 0, 3) } else { name };
        assert(short@ =~= first_three(string_field(obj@, name_field()).unwrap()));
        Some(HighScoreEntry { name: chars_to_string(&short), score: score as u32, stage: stage as usize })
    }
}

pub open spec fn entries_view(v: Seq<HighScoreEntry>) -> Seq<(Seq<char>, u32, usize)> {
    v.map_values(|e: HighScoreEntry| e@)
}

pub open spec fn texts_view(v: Seq<Vec<char>>) -> Seq<Seq<char>> {
    v.map_values(|t: Vec<char>| t@)
}

fn array_after_chars(c: &Vec<char>, key: &Vec<char>) -> (r: Option<Vec<char>>)
    ensures
        match array_after(c@, key@) {
            Some(a) => r matches Some(x) && x@ == a,
            None => r is None,
        },
{
    let k = match find_chars(c, key, 0) {
        Some(k) => k,
        None => return None,
    };
    let a = match find_char(c, '[', k) {
        Some(a) => a,
        None => return None,
    };
    let e = match find_char(c, ']', a) {
        Some(e) => e,
        None => return None,
    };
    proof {
        lemma_find_from(c@, seq!['['], k as int);
        lemma_find_from(c@, seq![']'], a as int);
        assert(c@.subrange(a as int, a + 1)[0] == c@[a as int]);
        assert(c@.subrange(e as int, e + 1)[0] == c@[e as int]);
    }
    Some(sub_chars(c, a + 1, e))
}

fn entries_in(arr: &Vec<char>) -> (r: Vec<HighScoreEntry>)
    ensures
        entries_view(r@) == entries_from(arr@, 0),
{
    let mut out: Vec<HighScoreEntry> = Vec::new();
    let mut pos: usize = 0;
    while pos < arr.len()
        invariant
            pos <= arr@.len(),
            entries_from(arr@, 0) == entries_view(out@) + entries_from(arr@, pos as int),
        decreases arr@.len() - pos,
    {
        let ghost before = out@;
        let os = match find_char(arr, '{', pos) {
            Some(o) => o,
            None => {
                assert(entries_view(out@) + entries_from(arr@, pos as int) =~= entries_view(out@));
                return out;
            },
        };
        let oe = match find_char(arr, '}', os) {
            Some(o) => o,
            None => {
                assert(entries_view(out@) + entries_from(arr@, pos as int) =~= entries_view(out@));
                return out;
            },
        };
        proof {
            lemma_find_from(arr@, seq!['{'], pos as int);
            lemma_find_from(arr@, seq!['}'], os as int);
            assert(arr@.subrange(os as int, os + 1)[0] == arr@[os as int]);
            assert(arr@.subrange(oe as int, oe + 1)[0] == arr@[oe as int]);
        }
        let obj = sub_chars(arr, os + 1, oe);
        match SaveData::parse_score_entry_chars(&obj) {
            Some(entry) => {
                out.push(entry);
                assert(entries_view(out@) =~= entries_view(before) + seq![entry@]);
            },
            None => {},
        }
        pos = oe + 1;
        assert(entries_from(arr@, 0) == entries_view(out@) + entries_from(arr@, pos as int));
    }
    assert(entries_view(out@) + entries_from(arr@, pos as int) =~= entries_view(out@));
    out
}

fn quoted_texts_in(arr: &Vec<char>) -> (r: Vec<Vec<char>>)
    ensures
        texts_view(r@) == quoted_texts_from(arr@, 0),
{
    let mut out: Vec<Vec<char>> = Vec::new();
    let mut pos: usize = 0;
    while pos < arr.len()
        invariant
            pos <= arr@.len(),
            quoted_texts_from(arr@, 0) == texts_view(out@) + quoted_texts_from(arr@, pos as int),
        decreases arr@.len() - pos,
    {
        let ghost before = out@;
        let q = match find_char(arr, '"', pos) {
            Some(q) => q,
            None => {
                assert(texts_view(out@) + quoted_texts_from(arr@, pos as int) =~= texts_view(out@));
                return out;
            },
        };
        let q2 = match find_char(arr, '"', q + 1) {
            Some(q2) => q2,
            None => {
                assert(texts_view(out@) + quoted_texts_from(arr@, pos as int) =~= texts_view(out@));
                return out;
            },
        };
        let text = sub_chars(arr, q + 1, q2);
        out.push(text);
        assert(texts_view(out@) =~= texts_view(before) + seq![text@]);
        pos = q2 + 1;
    }
    assert(texts_view(out@) + quoted_texts_from(arr@, pos as int) =~= texts_view(out@));
    out
}

impl SaveData {
    /// Reads a save file given as characters; what cannot be read keeps its
    /// default.
    pub fn parse_chars(c: &Vec<char>) -> (d: SaveData)
        ensures
            d.table() == parsed_table(c@),
            d.keybindings == parsed_bindings(c@),
    {
        let mut data = SaveData::default();
        let hs_key = vec!['"', 'h', 'i', 'g', 'h', '_', 's', 'c', 'o', 'r', 'e', 's', '"'];
        assert(hs_key@ =~= high_scores_key());
        match array_after_chars(c, &hs_key) {
            Some(arr) => {
                data.high_scores = entries_in(&arr);
            },
            None => {},
        }
        assert(data.table() == match array_after(c@, high_scores_key()) {
            None => Seq::<(Seq<char>, u32, usize)>::empty(),
            Some(arr) => entries_from(arr, 0),
        });
        let ghost tbl = data.table();
        let kb_key = vec!['"', 'k', 'e', 'y', 'b', 'i', 'n', 'd', 'i', 'n', 'g', 's', '"'];
        assert(kb_key@ =~= keybindings_key());
        match array_after_chars(c, &kb_key) {
            Some(arr) => {
                let keys = quoted_texts_in(&arr);
                let ghost kv = texts_view(keys@);
                let n: usize = if keys.len() > 8 { 8 } else { keys.len() };
                let mut i: usize = 0;
                while i < n
                    invariant
                        n <= keys@.len(),
                        n <= 8,
                        i <= n,
                        kv == texts_view(keys@),
                        data.table() == tbl,
                        data.keybindings == apply_key_texts(KeyBindings::spec_default(), kv, i as int),
                    decreases n - i,
                {
                    match keycode_from_chars(&keys[i]) {
                        Some(kc) => data.keybindings.set(i, kc),
                        None => {},
                    }
                    i = i + 1;
                }
            },
            None => {},
        }
        data.high_scores.truncate(MAX_HIGH_SCORES);
        assert(data.table() =~= parsed_table(c@));
        data
    }

    /// Reads a save file; what cannot be read keeps its default, so a
    /// result is always given.
    pub fn parse(contents: &str) -> (r: Option<SaveData>)
        ensures
            r matches Some(d) && d.table() == parsed_table(contents@)
                && d.keybindings == parsed_bindings(contents@),
    {
        let c = str_chars(contents);
        Some(SaveData::parse_chars(&c))
    }

    /// One high-score entry from the text between its braces.
    pub fn parse_score_entry(obj: &str) -> (r: Option<HighScoreEntry>)
        ensures
            match entry_from(obj@) {
                Some(e) => r matches Some(x) && x@ == e,
                None => r is None,
            },
    {
        SaveData::parse_score_entry_chars(&str_chars(obj))
    }

    /// The quoted text after `"field":` in `obj`.
    pub fn extract_string_field(obj: &str, field: &str) -> (r: Option<String>)
        ensures
            match string_field(obj@, field@) {
                Some(v) => r matches Some(x) && x@ == v,
                None => r is None,
            },
    {
        match extract_string_field_chars(&str_chars(obj), &str_chars(field)) {
            Some(v) => Some(chars_to_string(&v)),
            None => None,
        }
    }

    /// The number after `"field":` in `obj`.
    pub fn extract_number_field(obj: &str, field: &str) -> (r: Option<i64>)
        ensures
            match number_field(obj@, field@) {
                Some(v) => r == Some(v as i64),
                None => r is None,
            },
    {
        extract_number_field_chars(&str_chars(obj), &str_chars(field))
    }
}

} // verus!

