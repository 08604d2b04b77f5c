use vstd::prelude::*;
use crate::keybinds::{KeyBindings, KeyCode};
use crate::save::{SaveData, table_insert};
use crate::text::chars_to_string;
use crate::stages::EnemyType;

verus! {

#[derive(Clone, Copy, Debug, PartialEq, Eq, Structural)]
pub enum GamePhase {
    Title,
    /// 3-2-1-GO before gameplay.
    Countdown,
    Playing,
    /// Brief death animation.
    Dying,
    GameOver,
    /// Key binding configuration screen.
    Config,
    /// Debug menu for testing.
    CheatMenu,
}

/// The sound effects of the game.
#[derive(Clone, Copy, Debug, PartialEq, Eq, Structural)]
pub enum SoundEffect {
    Shoot,
    Bomb,
    Explosion,
    PlayerDeath,
    FuelPickup,
    TurretFire,
    RocketLaunch,
    CountdownBeep,
    StartJingle,
}

/// The sound of a shot or bomb hitting an enemy: a fuel tank is picked up,
/// anything else explodes.
pub fn hit_sound(enemy_type: EnemyType) -> (s: SoundEffect)
    ensures
        s == if enemy_type == EnemyType::FuelTank { SoundEffect::FuelPickup } else { SoundEffect::Explosion },
{
    if enemy_type == EnemyType::FuelTank {
        SoundEffect::FuelPickup
    } else {
        SoundEffect::Explosion
    }
}

/// What follows the death animation.
#[derive(Clone, Copy, Debug, PartialEq, Eq, Structural)]
pub enum DeathOutcome {
    /// A life was used up; the ship comes back.
    Respawn,
    /// No lives were left; `rank` is where the score enters the high-score
    /// table, if it does.
    GameOver { rank: Option<usize> },
}

/// Ends the death animation: with a life left, one is used and the ship
/// respawns; otherwise the game is over, the score becomes the high score if
/// it beats it, and the rank it earns in the table is looked up.
pub fn death_outcome(lives: &mut u32, score: u32, hi_score: &mut u32, save: &SaveData) -> (r: DeathOutcome)
    ensures
        *old(lives) > 0 ==> r == DeathOutcome::Respawn && *final(lives) == *old(lives) - 1
            && *final(hi_score) == *old(hi_score),
        *old(lives) == 0 ==> *final(lives) == 0
            && *final(hi_score) == (if score > *old(hi_score) { score } else { *old(hi_score) })
            && match r {
                DeathOutcome::GameOver { rank } => match crate::save::qualifying_rank(crate::save::scores_of(save.table()), score) {
                    Some(k) => rank == Some(k as usize),
                    None => rank is None,
                },
                DeathOutcome::Respawn => false,
            },
{
    if *lives > 0 {
        *lives = *lives - 1;
        DeathOutcome::Respawn
    } else {
        if score > *hi_score {
            *hi_score = score;
        }
        DeathOutcome::GameOver { rank: save.qualifies(score) }
    }
}

/// The sound of the `i`-th countdown mark (0 to 3): a beep for 3, 2 and 1,
/// the start jingle for GO.
pub fn countdown_sound(i: usize) -> (s: SoundEffect)
    ensures
        s == if i < 3 { SoundEffect::CountdownBeep } else { SoundEffect::StartJingle },
{
    if i < 3 {
        SoundEffect::CountdownBeep
    } else {
        SoundEffect::StartJingle
    }
}

// ---------------------------------------------------------------------------
// Cheat menu
// ---------------------------------------------------------------------------

/// The debug menu: a cursor over four rows (start stage, invincibility,
/// infinite fuel, launch) and the chosen settings.
#[derive(Clone, Copy, Debug, PartialEq, Eq, Structural)]
pub struct CheatState {
    pub selected: usize,
    /// 1 to 6.
    pub start_stage: usize,
    pub invincible: bool,
    pub infinite_fuel: bool,
}

impl CheatState {
    pub open spec fn wf(self) -> bool {
        self.selected < 4 && 1 <= self.start_stage <= 6
    }

    pub fn new() -> (c: Self)
        ensures
            c == (CheatState { selected: 0, start_stage: 1, invincible: false, infinite_fuel: false }),
            c.wf(),
    {
        CheatState { selected: 0, start_stage: 1, invincible: false, infinite_fuel: false }
    }

    /// The menu after a key: Up and Down move the cursor round the four rows,
    /// Left and Right change the start stage within 1 to 6 when it is
    /// selected, Enter or space toggle the selected setting; other keys do
    /// nothing.
    pub open spec fn after_key(self, key: KeyCode) -> CheatState {
        match key {
            KeyCode::Up => CheatState { selected: if self.selected > 0 { (self.selected - 1) as usize } else { 3 }, ..self },
            KeyCode::Down => CheatState { selected: if self.selected < 3 { (self.selected + 1) as usize } else { 0 }, ..self },
            KeyCode::Left => if self.selected == 0 && self.start_stage > 1 {
                CheatState { start_stage: (self.start_stage - 1) as usize, ..self }
            } else {
                self
            },
            KeyCode::Right => if self.selected == 0 && self.start_stage < 6 {
                CheatState { start_stage: (self.start_stage + 1) as usize, ..self }
            } else {
                self
            },
            KeyCode::Enter => self.toggled(),
            KeyCode::Char(c) => if c == ' ' { self.toggled() } else { self },
            _ => self,
        }
    }

    pub open spec fn toggled(self) -> CheatState {
        if self.selected == 1 {
            CheatState { invincible: !self.invincible, ..self }
        } else if self.selected == 2 {
            CheatState { infinite_fuel: !self.infinite_fuel, ..self }
        } else {
            self
        }
    }

    /// Handles the last raw key in the debug menu. Returns the stage to
    /// launch (Enter or space on the launch row), `Some(0)` to close without
    /// launching (Esc), or `None` to stay.
    pub fn update_cheat_menu(&mut self, key: Option<KeyCode>) -> (r: Option<usize>)
        ensures
            old(self).wf() ==> final(self).wf(),
            old(self).wf() ==> (r matches Some(k) ==> (k == 0 || 1 <= k <= 6)),
            match key {
                None => r is None && *final(self) == *old(self),
                Some(KeyCode::Esc) => r == Some(0usize) && *final(self) == *old(self),
                Some(k) => if old(self).selected == 3 && (k == KeyCode::Enter || k == KeyCode::Char(' ')) {
                    r == Some(old(self).start_stage) && *final(self) == *old(self)
                } else {
                    r is None && *final(self) == old(self).after_key(k)
                },
            },
    {
        match key {
            Some(KeyCode::Up) => {
                self.selected = if self.selected > 0 { self.selected - 1 } else { 3 };
            },
            Some(KeyCode::Down) => {
                self.selected = if self.selected < 3 { self.selected + 1 } else { 0 };
            },
            Some(KeyCode::Left) => {
                if self.selected == 0 && self.start_stage > 1 {
                    self.start_stage = self.start_stage - 1;
                }
            },
            Some(KeyCode::Right) => {
                if self.selected == 0 && self.start_stage < 6 {
                    self.start_stage = self.start_stage + 1;
                }
            },
            Some(KeyCode::Enter) | Some(KeyCode::Char(' ')) => {
                match self.selected {
                    0 => {},
                    1 => self.invincible = !self.invincible,
                    2 => self.infinite_fuel = !self.infinite_fuel,
                    3 => return Some(self.start_stage),
                    _ => {},
                }
            },
            Some(KeyCode::Esc) => {
                return Some(0);
            },
            _ => {},
        }
        None
    }
}

/// The debug menu stays well formed whatever key comes, and a launch is
/// always for a stage from 1 to 6.
pub proof fn lemma_cheat_menu_stays_valid(c: CheatState, key: KeyCode)
    requires
        c.wf(),
    ensures
        c.after_key(key).wf(),
        c.selected == 3 ==> 1 <= c.start_stage <= 6,
{
}

/// In the debug menu, Down undoes Up and Up undoes Down: the cursor goes
/// round the four rows.
pub proof fn lemma_cheat_cursor_round_trip(c: CheatState)
    requires
        c.wf(),
    ensures
        c.after_key(KeyCode::Up).after_key(KeyCode::Down) == c,
        c.after_key(KeyCode::Down).after_key(KeyCode::Up) == c,
{
}

// ---------------------------------------------------------------------------
// Key binding configuration
// ---------------------------------------------------------------------------

/// The configuration screen: a cursor over the eight bindings, whether it
/// waits for a key to bind, and where it returns to when closed.
#[derive(Clone, Copy, Debug, PartialEq, Eq, Structural)]
pub struct ConfigState {
    pub selected: usize,
    pub binding: bool,
    pub return_to_title: bool,
}

/// What the game does after a key on the configuration screen.
#[derive(Clone, Copy, Debug, PartialEq, Eq, Structural)]
pub enum ConfigAction {
    Stay,
    /// Now waiting for a key to bind: restart the prompt's blinking.
    StartBinding,
    /// Leave the screen; the bindings were copied to the save data, which
    /// should be written out.
    Close,
}

impl ConfigState {
    pub open spec fn wf(self) -> bool {
        self.selected < 8
    }

    /// Handles the last raw key on the configuration screen. While waiting
    /// for a key to bind, Esc cancels and any other key is bound to the
    /// selected action. Otherwise Up and Down move the cursor round the
    /// eight bindings, Enter starts binding, and Esc copies the bindings to
    /// `saved` and closes the screen.
    pub fn update_config(&mut self, key: Option<KeyCode>, keybinds: &mut KeyBindings, saved: &mut KeyBindings)
        -> (r: ConfigAction)
        ensures
            old(self).wf() ==> final(self).wf(),
            match key {
                None => r == ConfigAction::Stay && *final(self) == *old(self) && *final(keybinds) == *old(keybinds)
                    && *final(saved) == *old(saved),
                Some(k) => if old(self).binding {
                    &&& r == ConfigAction::Stay
                    &&& *final(self) == (ConfigState { binding: false, ..*old(self) })
                    &&& *final(keybinds) == if k == KeyCode::Esc {
                        *old(keybinds)
                    } else {
                        old(keybinds).with_slot(old(self).selected as int, k)
                    }
                    &&& *final(saved) == *old(saved)
                } else {
                    &&& *final(keybinds) == *old(keybinds)
                    &&& match k {
                        KeyCode::Up => r == ConfigAction::Stay && *final(saved) == *old(saved)
                            && *final(self) == (ConfigState {
                                selected: if old(self).selected > 0 { (old(self).selected - 1) as usize } else { 7 },
                                ..*old(self)
                            }),
                        KeyCode::Down => r == ConfigAction::Stay && *final(saved) == *old(saved)
                            && *final(self) == (ConfigState {
                                selected: if old(self).selected < 7 { (old(self).selected + 1) as usize } else { 0 },
                                ..*old(self)
                            }),
                        KeyCode::Enter => r == ConfigAction::StartBinding && *final(saved) == *old(saved)
                            && *final(self) == (ConfigState { binding: true, ..*old(self) }),
                        KeyCode::Esc => r == ConfigAction::Close && *final(saved) == *old(keybinds)
                            && *final(self) == *old(self),
                        _ => r == ConfigAction::Stay && *final(saved) == *old(saved) && *final(self) == *old(self),
                    }
                },
            },
    {
        if self.binding {
            match key {
                Some(k) => {
                    if k != KeyCode::Esc {
                        keybinds.set(self.selected, k);
                    }
                    self.binding = false;
                },
                None => {},
            }
            ConfigAction::Stay
        } else {
            match key {
                Some(KeyCode::Up) => {
                    self.selected = if self.selected > 0 { self.selected - 1 } else { 7 };
                    ConfigAction::Stay
                },
                Some(KeyCode::Down) => {
                    self.selected = if self.selected < 7 { self.selected + 1 } else { 0 };
                    ConfigAction::Stay
                },
                Some(KeyCode::Enter) => {
                    self.binding = true;
                    ConfigAction::StartBinding
                },
                Some(KeyCode::Esc) => {
                    let mut i: usize = 0;
                    while i < 8
                        invariant
                            i <= 8,
                            forall|j: int| 0 <= j < i ==> saved.slot(j) == keybinds.slot(j),
                            forall|j: int| i <= j < 8 ==> saved.slot(j) == old(saved).slot(j),
                        decreases 8 - i,
                    {
                        let k = keybinds.get(i);
                        saved.set(i, k);
                        i = i + 1;
                    }
                    assert(saved.slot(0) == keybinds.slot(0) && saved.slot(1) == keybinds.slot(1));
                    assert(saved.slot(2) == keybinds.slot(2) && saved.slot(3) == keybinds.slot(3));
                    assert(saved.slot(4) == keybinds.slot(4) && saved.slot(5) == keybinds.slot(5));
                    assert(saved.slot(6) == keybinds.slot(6) && saved.slot(7) == keybinds.slot(7));
                    ConfigAction::Close
                },
                _ => ConfigAction::Stay,
            }
        }
    }
}

// ---------------------------------------------------------------------------
// Name entry for a new high score
// ---------------------------------------------------------------------------

/// The game-over name entry: three letters, a cursor, and the rank the
/// score earned (none when it did not make the table).
#[derive(Clone, Copy, Debug)]
pub struct NameEntry {
    pub entering_name: bool,
    pub name: [char; 3],
    pub name_pos: usize,
    pub rank: Option<usize>,
}

pub open spec fn is_letter(c: char) -> bool {
    'A' <= c && c <= 'Z'
}

/// The letter before `c`, wrapping from A to Z.
pub open spec fn prev_letter(c: char) -> char {
    if c == 'A' { 'Z' } else { ((c as int) - 1) as char }
}

/// The letter after `c`, wrapping from Z to A.
pub open spec fn next_letter(c: char) -> char {
    if c == 'Z' { 'A' } else { ((c as int) + 1) as char }
}

/// What the game does after a frame of name entry.
#[derive(Clone, Copy, Debug, PartialEq, Eq, Structural)]
pub struct NameStep {
    /// A stick or pad input was taken: wait before taking the next one.
    pub used_stick: bool,
    /// The name was confirmed and the score entered into the table: the
    /// high score shown and the save file should be brought up to date.
    pub saved: bool,
}

impl NameEntry {
    pub open spec fn wf(self) -> bool {
        &&& self.name_pos < 3
        &&& forall|i: int| 0 <= i < 3 ==> is_letter(#[trigger] self.name@[i])
    }

    /// Name entry for a score that earned `rank` (entering only if it did).
    pub fn new(rank: Option<usize>) -> (e: Self)
        ensures
            e.wf(),
            e.entering_name == rank is Some,
            e.name@ == seq!['A', 'A', 'A'],
            e.name_pos == 0,
            e.rank == rank,
    {
        let e = NameEntry { entering_name: rank.is_some(), name: ['A', 'A', 'A'], name_pos: 0, rank };
        assert(e.name@ =~= seq!['A', 'A', 'A']);
        e
    }

    /// The letter under the cursor steps back (A wraps to Z).
    pub fn letter_up(&mut self)
        requires
            old(self).wf(),
        ensures
            final(self).wf(),
            final(self).name@ == old(self).name@.update(old(self).name_pos as int,
                prev_letter(old(self).name@[old(self).name_pos as int])),
            final(self).name_pos == old(self).name_pos,
            final(self).entering_name == old(self).entering_name,
            final(self).rank == old(self).rank,
    {
        let c = self.name[self.name_pos];
        assert(is_letter(self.name@[self.name_pos as int]));
        let n = if c == 'A' { 'Z' } else { ((c as u8) - 1) as char };
        self.name.set(self.name_pos, n);
        assert(forall|i: int| 0 <= i < 3 ==> is_letter(#[trigger] self.name@[i]));
    }

    /// The letter under the cursor steps forward (Z wraps to A).
    pub fn letter_down(&mut self)
        requires
            old(self).wf(),
        ensures
            final(self).wf(),
            final(self).name@ == old(self).name@.update(old(self).name_pos as int,
                next_letter(old(self).name@[old(self).name_pos as int])),
            final(self).name_pos == old(self).name_pos,
            final(self).entering_name == old(self).entering_name,
            final(self).rank == old(self).rank,
    {
        let c = self.name[self.name_pos];
        assert(is_letter(self.name@[self.name_pos as int]));
        let n = if c == 'Z' { 'A' } else { ((c as u8) + 1) as char };
        self.name.set(self.name_pos, n);
        assert(forall|i: int| 0 <= i < 3 ==> is_letter(#[trigger] self.name@[i]));
    }

    /// The cursor moves left, stopping at the first letter.
    pub fn cursor_left(&mut self)
        ensures
            *final(self) == (NameEntry {
                name_pos: if old(self).name_pos > 0 { (old(self).name_pos - 1) as usize } else { old(self).name_pos },
                ..*old(self)
            }),
    {
        if self.name_pos > 0 {
            self.name_pos = self.name_pos - 1;
        }
    }

    /// The cursor moves right, stopping at the third letter.
    pub fn cursor_right(&mut self)
        ensures
            *final(self) == (NameEntry {
                name_pos: if old(self).name_pos < 2 { (old(self).name_pos + 1) as usize } else { old(self).name_pos },
                ..*old(self)
            }),
    {
        if self.name_pos < 2 {
            self.name_pos = self.name_pos + 1;
        }
    }

    /// Confirms the name: when the score earned a rank, it enters the table
    /// there under the three letters. Entry ends either way. Returns whether
    /// the table changed.
    pub fn confirm(&mut self, save: &mut SaveData, score: u32, stage: usize) -> (saved: bool)
        requires
            old(self).rank matches Some(r) ==> r <= old(save).high_scores@.len(),
        ensures
            saved == old(self).rank is Some,
            final(save).table() == match old(self).rank {
                Some(r) => table_insert(old(save).table(), r as int, (old(self).name@, score, stage)),
                None => old(save).table(),
            },
            final(save).keybindings == old(save).keybindings,
            !final(self).entering_name,
            final(self).rank is None,
            final(self).name == old(self).name,
            final(self).name_pos == old(self).name_pos,
    {
        let letters = vec![self.name[0], self.name[1], self.name[2]];
        assert(letters@ =~= self.name@);
        let name = chars_to_string(&letters);
        let saved = match self.rank {
            Some(rank) => {
                save.insert(rank, name, score, stage);
                true
            },
            None => false,
        };
        self.rank = None;
        self.entering_name = false;
        saved
    }

    /// One frame of name entry. A raw key is taken first: Up and Down change
    /// the letter, Left and Right move the cursor, Enter, `z` or space
    /// confirm. When no such key came and `stick_ready` (the repeat delay has
    /// passed), the first of up, down, left, right and fire held on the
    /// stick or keyboard acts the same way. Nothing happens unless a name is
    /// being entered.
    pub fn step(
        &mut self,
        key: Option<KeyCode>,
        up: bool,
        down: bool,
        left: bool,
        right: bool,
        fire: bool,
        stick_ready: bool,
        save: &mut SaveData,
        score: u32,
        stage: usize,
    ) -> (r: NameStep)
        requires
            old(self).wf(),
            old(self).rank matches Some(k) ==> k <= old(save).high_scores@.len(),
        ensures
            final(self).wf(),
            final(self).rank matches Some(k) ==> k <= final(save).high_scores@.len(),
            final(save).keybindings == old(save).keybindings,
            match acted_key(*old(self), key, up, down, left, right, fire, stick_ready) {
                None => *final(self) == *old(self) && final(save).table() == old(save).table()
                    && r == (NameStep { used_stick: false, saved: false }),
                Some(k) => {
                    &&& stepped_by_key(*old(self), *final(self), k)
                    &&& r.used_stick == !key_handled(key)
                    &&& r.saved == (is_confirm(k) && old(self).rank is Some)
                    &&& final(save).table() == if r.saved {
                        table_insert(old(save).table(), old(self).rank.unwrap() as int, (old(self).name@, score, stage))
                    } else {
                        old(save).table()
                    }
                },
            },
    {
        let none = NameStep { used_stick: false, saved: false };
        if !self.entering_name {
            return none;
        }
        let mut handled = false;
        let mut saved = false;
        match key {
            Some(KeyCode::Up) => {
                handled = true;
                self.letter_up();
            },
            Some(KeyCode::Down) => {
                handled = true;
                self.letter_down();
            },
            Some(KeyCode::Left) => {
                handled = true;
                self.cursor_left();
            },
            Some(KeyCode::Right) => {
                handled = true;
                self.cursor_right();
            },
            Some(KeyCode::Enter) | Some(KeyCode::Char('z')) | Some(KeyCode::Char(' ')) => {
                handled = true;
                saved = self.confirm(save, score, stage);
            },
            _ => {},
        }
        if !handled && stick_ready {
            if up {
                self.letter_up();
                return NameStep { used_stick: true, saved: false };
            } else if down {
                self.letter_down();
                return NameStep { used_stick: true, saved: false };
            } else if left {
                self.cursor_left();
                return NameStep { used_stick: true, saved: false };
            } else if right {
                self.cursor_right();
                return NameStep { used_stick: true, saved: false };
            } else if fire {
                let s = self.confirm(save, score, stage);
                return NameStep { used_stick: true, saved: s };
            }
        }
        NameStep { used_stick: false, saved }
    }
}

/// The raw keys that name entry takes.
pub open spec fn key_handled(key: Option<KeyCode>) -> bool {
    match key {
        Some(KeyCode::Up) | Some(KeyCode::Down) | Some(KeyCode::Left) | Some(KeyCode::Right)
        | Some(KeyCode::Enter) => true,
        Some(KeyCode::Char(c)) => c == 'z' || c == ' ',
        _ => false,
    }
}

/// The keys that confirm the name.
pub open spec fn is_confirm(key: KeyCode) -> bool {
    key == KeyCode::Enter || key == KeyCode::Char('z') || key == KeyCode::Char(' ')
}

/// The input that a frame of name entry acts on: a raw key it takes, else,
/// once the repeat delay has passed, the first held direction (as the arrow
/// key) or fire (as Enter); nothing when no name is being entered.
pub open spec fn acted_key(
    e: NameEntry,
    key: Option<KeyCode>,
    up: bool,
    down: bool,
    left: bool,
    right: bool,
    fire: bool,
    stick_ready: bool,
) -> Option<KeyCode> {
    if !e.entering_name {
        None
    } else if key_handled(key) {
        key
    } else if !stick_ready {
        None
    } else if up {
        Some(KeyCode::Up)
    } else if down {
        Some(KeyCode::Down)
    } else if left {
        Some(KeyCode::Left)
    } else if right {
        Some(KeyCode::Right)
    } else if fire {
        Some(KeyCode::Enter)
    } else {
        None
    }
}

/// `f` is name entry `e` after the input `key`: Up and Down step the letter
/// under the cursor back and forward, Left and Right move the cursor within
/// the three letters, a confirming key ends entry and drops the rank.
pub open spec fn stepped_by_key(e: NameEntry, f: NameEntry, key: KeyCode) -> bool {
    if key == KeyCode::Up {
        &&& f.name@ == e.name@.update(e.name_pos as int, prev_letter(e.name@[e.name_pos as int]))
        &&& f.name_pos == e.name_pos && f.entering_name == e.entering_name && f.rank == e.rank
    } else if key == KeyCode::Down {
        &&& f.name@ == e.name@.update(e.name_pos as int, next_letter(e.name@[e.name_pos as int]))
        &&& f.name_pos == e.name_pos && f.entering_name == e.entering_name && f.rank == e.rank
    } else if key == KeyCode::Left {
        &&& f.name == e.name && f.entering_name == e.entering_name && f.rank == e.rank
        &&& f.name_pos == if e.name_pos > 0 { (e.name_pos - 1) as usize } else { e.name_pos }
    } else if key == KeyCode::Right {
        &&& f.name == e.name && f.entering_name == e.entering_name && f.rank == e.rank
        &&& f.name_pos == if e.name_pos < 2 { (e.name_pos + 1) as usize } else { e.name_pos }
    } else {
        &&& f.name == e.name && f.name_pos == e.name_pos
        &&& !f.entering_name && f.rank is None
    }
}

/// Stepping a letter forward undoes stepping it back and the other way
/// round, and a letter stays a letter either way.
pub proof fn lemma_letters_cycle(c: char)
    requires
        is_letter(c),
    ensures
        is_letter(prev_letter(c)),
        is_letter(next_letter(c)),
        next_letter(prev_letter(c)) == c,
        prev_letter(next_letter(c)) == c,
{
}

// ---------------------------------------------------------------------------
// The high-score list on screen
// ---------------------------------------------------------------------------

/// One row of the high-score list as the title and game-over screens show
/// it.
pub struct ScoreRow {
    pub name: String,
    pub score: u32,
    pub stage: usize,
    /// The score just made, waiting for its name.
    pub is_new: bool,
}

impl View for ScoreRow {
    type V = (Seq<char>, u32, usize, bool);

    open spec fn view(&self) -> (Seq<char>, u32, usize, bool) {
        (self.name@, self.score, self.stage, self.is_new)
    }
}

/// Row `i` of the list: the new score at its pending rank, the table's
/// entries (those below the pending rank one row further down), and `---`
/// with zeros where the table has no entry.
pub open spec fn score_row(
    t: Seq<(Seq<char>, u32, usize)>,
    pending: Option<usize>,
    name: Seq<char>,
    score: u32,
    stage: usize,
    i: int,
) -> (Seq<char>, u32, usize, bool) {
    if pending == Some(i as usize) {
        (name, score, stage, true)
    } else {
        let src = match pending {
            Some(r) => if i > r { i - 1 } else { i },
            None => i,
        };
        if src < t.len() {
            (t[src].0, t[src].1, t[src].2, false)
        } else {
            (seq!['-', '-', '-'], 0, 0, false)
        }
    }
}

/// The ten rows of the high-score list. While a new score waits at
/// `pending` for its name, it stands there with `name` and the entries from
/// that rank on move one row down.
pub fn score_rows(save: &SaveData, pending: Option<usize>, name: [char; 3], score: u32, stage: usize)
    -> (rows: Vec<ScoreRow>)
    ensures
        rows@.len() == 10,
        forall|i: int| 0 <= i < 10 ==> (#[trigger] rows@[i])@ == score_row(save.table(), pending, name@, score, stage, i),
{
    let mut rows: Vec<ScoreRow> = Vec::new();
    let mut i: usize = 0;
    while i < 10
        invariant
            i <= 10,
            rows@.len() == i,
            forall|k: int| 0 <= k < i ==> (#[trigger] rows@[k])@ == score_row(save.table(), pending, name@, score, stage, k),
        decreases 10 - i,
    {
        let row = if pending == Some(i) {
            let letters = vec![name[0], name[1], name[2]];
            assert(letters@ =~= name@);
            ScoreRow { name: chars_to_string(&letters), score, stage, is_new: true }
        } else {
            let src = match pending {
                Some(r) => if i > r { i - 1 } else { i },
                None => i,
            };
            if src < save.high_scores.len() {
                let e = &save.high_scores[src];
                ScoreRow { name: e.name.clone(), score: e.score, stage: e.stage, is_new: false }
            } else {
                let dashes = vec!['-', '-', '-'];
                assert(dashes@ =~= seq!['-', '-', '-']);
                ScoreRow { name: chars_to_string(&dashes), score: 0, stage: 0, is_new: false }
            }
        };
        rows.push(row);
        i = i + 1;
    }
    rows
}

} // verus!
