use vstd::prelude::*;
use crate::keybinds::{KeyBindings, KeyCode};

verus! {

/// Whether a key event is a press, a repeat or a release.
#[derive(Clone, Copy, Debug, PartialEq, Eq, Structural)]
pub enum KeyEventKind {
    Press,
    Repeat,
    Release,
}

/// What the player asks for this frame: held directions, one-shot actions,
/// and the raw key last pressed. The `kb_` fields track which direction keys
/// the keyboard holds down between frames.
#[derive(Clone, Copy, Debug)]
pub struct InputState {
    pub up: bool,
    pub down: bool,
    pub left: bool,
    pub right: bool,
    pub fire: bool,
    pub bomb: bool,
    pub quit: bool,
    pub restart: bool,
    pub title: bool,
    pub any_key: bool,
    pub config_toggle: bool,
    pub cheat_toggle: bool,
    pub last_raw_key: Option<KeyCode>,
    pub kb_up: bool,
    pub kb_down: bool,
    pub kb_left: bool,
    pub kb_right: bool,
}

/// What a gamepad reports for one frame. The stick fields say whether the
/// left stick is pushed past its dead zone in that direction.
#[derive(Clone, Copy, Debug, PartialEq, Eq, Structural)]
pub struct GamepadState {
    pub dpad_up: bool,
    pub dpad_down: bool,
    pub dpad_left: bool,
    pub dpad_right: bool,
    pub stick_left: bool,
    pub stick_right: bool,
    pub stick_up: bool,
    pub stick_down: bool,
    pub south: bool,
    pub west: bool,
    pub east: bool,
    pub start: bool,
    pub select: bool,
}

pub open spec fn idle_input() -> InputState {
    InputState {
        up: false, down: false, left: false, right: false, fire: false, bomb: false, quit: false,
        restart: false, title: false, any_key: false, config_toggle: false, cheat_toggle: false,
        last_raw_key: None, kb_up: false, kb_down: false, kb_left: false, kb_right: false,
    }
}

/// The state after a key press: any key but a modifier counts as "any key",
/// the key becomes the last raw key, and the first matching rule applies:
/// the four direction bindings hold their direction; the fire binding or
/// space fires; the bomb binding bombs; the quit binding or Esc quits; the
/// restart binding restarts; `t` asks for the title; Ctrl+C quits; `c`
/// toggles the configuration screen; `=` toggles the cheat menu.
pub open spec fn pressed(s: InputState, code: KeyCode, ctrl: bool, b: KeyBindings) -> InputState {
    let s1 = InputState { any_key: if code is Modifier { s.any_key } else { true }, last_raw_key: Some(code), ..s };
    if code == b.up { InputState { kb_up: true, ..s1 } }
    else if code == b.down { InputState { kb_down: true, ..s1 } }
    else if code == b.left { InputState { kb_left: true, ..s1 } }
    else if code == b.right { InputState { kb_right: true, ..s1 } }
    else if code == b.fire || code == KeyCode::Char(' ') { InputState { fire: true, ..s1 } }
    else if code == b.bomb { InputState { bomb: true, ..s1 } }
    else if code == b.quit || code == KeyCode::Esc { InputState { quit: true, ..s1 } }
    else if code == b.restart { InputState { restart: true, ..s1 } }
    else if code == KeyCode::Char('t') { InputState { title: true, ..s1 } }
    else if code == KeyCode::Char('c') && ctrl { InputState { quit: true, ..s1 } }
    else if code == KeyCode::Char('c') { InputState { config_toggle: true, ..s1 } }
    else if code == KeyCode::Char('=') { InputState { cheat_toggle: true, ..s1 } }
    else { s1 }
}

/// The state after a key release: releasing a direction binding lets go of
/// that direction; nothing else changes.
pub open spec fn released(s: InputState, code: KeyCode, b: KeyBindings) -> InputState {
    if code == b.up { InputState { kb_up: false, ..s } }
    else if code == b.down { InputState { kb_down: false, ..s } }
    else if code == b.left { InputState { kb_left: false, ..s } }
    else if code == b.right { InputState { kb_right: false, ..s } }
    else { s }
}

/// A gamepad's buttons and stick added to the keyboard's input: d-pad and
/// stick hold directions, South fires, West bombs, East restarts (and counts
/// as any key), Start toggles the configuration screen, Select asks for the
/// title.
pub open spec fn merged(s: InputState, pad: GamepadState) -> InputState {
    InputState {
        up: s.up || pad.dpad_up || pad.stick_up,
        down: s.down || pad.dpad_down || pad.stick_down,
        left: s.left || pad.dpad_left || pad.stick_left,
        right: s.right || pad.dpad_right || pad.stick_right,
        fire: s.fire || pad.south,
        bomb: s.bomb || pad.west,
        restart: s.restart || pad.east,
        any_key: s.any_key || pad.east,
        config_toggle: s.config_toggle || pad.start,
        title: s.title || pad.select,
        ..s
    }
}

impl Default for InputState {
    fn default() -> (s: Self)
        ensures
            s == idle_input(),
    {
        InputState {
            up: false, down: false, left: false, right: false, fire: false, bomb: false, quit: false,
            restart: false, title: false, any_key: false, config_toggle: false, cheat_toggle: false,
            last_raw_key: None, kb_up: false, kb_down: false, kb_left: false, kb_right: false,
        }
    }
}

impl InputState {
    /// Forgets this frame's one-shot actions; held directions stay.
    pub fn clear_actions(&mut self)
        ensures
            *final(self) == (InputState {
                fire: false, bomb: false, quit: false, restart: false, title: false, any_key: false,
                config_toggle: false, cheat_toggle: false, last_raw_key: None, ..*old(self)
            }),
    {
        self.fire = false;
        self.bomb = false;
        self.quit = false;
        self.restart = false;
        self.title = false;
        self.any_key = false;
        self.config_toggle = false;
        self.cheat_toggle = false;
        self.last_raw_key = None;
    }

    /// Takes in one key event.
    pub fn handle_key_event(&mut self, code: KeyCode, ctrl: bool, kind: KeyEventKind, bindings: &KeyBindings)
        ensures
            *final(self) == match kind {
                KeyEventKind::Press => pressed(*old(self), code, ctrl, *bindings),
                KeyEventKind::Release => released(*old(self), code, *bindings),
                KeyEventKind::Repeat => *old(self),
            },
    {
        match kind {
            KeyEventKind::Press => {
                // Modifier-only keys do not count as "any key".
                let is_modifier = match code {
                    KeyCode::Modifier(_) => true,
                    _ => false,
                };
                let s1 = InputState {
                    any_key: if is_modifier { self.any_key } else { true },
                    last_raw_key: Some(code),
                    ..*self
                };
                *self = if code == bindings.up {
                    InputState { kb_up: true, ..s1 }
                } else if code == bindings.down {
                    InputState { kb_down: true, ..s1 }
                } else if code == bindings.left {
                    InputState { kb_left: true, ..s1 }
                } else if code == bindings.right {
                    InputState { kb_right: true, ..s1 }
                } else if code == bindings.fire || code == KeyCode::Char(' ') {
                    InputState { fire: true, ..s1 }
                } else if code == bindings.bomb {
                    InputState { bomb: true, ..s1 }
                } else if code == bindings.quit || code == KeyCode::Esc {
                    InputState { quit: true, ..s1 }
                } else if code == bindings.restart {
                    InputState { restart: true, ..s1 }
                } else if code == KeyCode::Char('t') {
                    InputState { title: true, ..s1 }
                } else if code == KeyCode::Char('c') && ctrl {
                    InputState { quit: true, ..s1 }
                } else if code == KeyCode::Char('c') {
                    InputState { config_toggle: true, ..s1 }
                } else if code == KeyCode::Char('=') {
                    InputState { cheat_toggle: true, ..s1 }
                } else {
                    s1
                };
            },
            KeyEventKind::Release => {
                *self = if code == bindings.up {
                    InputState { kb_up: false, ..*self }
                } else if code == bindings.down {
                    InputState { kb_down: false, ..*self }
                } else if code == bindings.left {
                    InputState { kb_left: false, ..*self }
                } else if code == bindings.right {
                    InputState { kb_right: false, ..*self }
                } else {
                    *self
                };
            },
            KeyEventKind::Repeat => {},
        }
    }

    /// Ends a frame's polling: the held directions become those the keyboard
    /// holds down (a gamepad may add to them afterwards).
    pub fn latch_directions(&mut self)
        ensures
            *final(self) == (InputState {
                up: old(self).kb_up, down: old(self).kb_down, left: old(self).kb_left, right: old(self).kb_right,
                ..*old(self)
            }),
    {
        self.up = self.kb_up;
        self.down = self.kb_down;
        self.left = self.kb_left;
        self.right = self.kb_right;
    }

    /// Adds a gamepad's buttons and stick to the keyboard's input: d-pad and
    /// stick hold directions, South fires, West bombs, East restarts (and
    /// counts as any key), Start toggles the configuration screen, Select
    /// asks for the title.
    pub fn merge_gamepad(&mut self, pad: GamepadState)
        ensures
            *final(self) == merged(*old(self), pad),
    {
        let up = self.up || pad.dpad_up || pad.stick_up;
        let down = self.down || pad.dpad_down || pad.stick_down;
        let left = self.left || pad.dpad_left || pad.stick_left;
        let right = self.right || pad.dpad_right || pad.stick_right;
        let fire = self.fire || pad.south;
        let bomb = self.bomb || pad.west;
        let restart = self.restart || pad.east;
        let any_key = self.any_key || pad.east;
        let config_toggle = self.config_toggle || pad.start;
        let title = self.title || pad.select;
        *self = InputState { up, down, left, right, fire, bomb, restart, any_key, config_toggle, title, ..*self };
    }
}

/// A direction key stays held from its press to its release, whatever other
/// keys do in between: pressing a bound direction and then pressing or
/// releasing a key bound to nothing of the four directions leaves it held.
pub proof fn lemma_press_holds_until_release(s: InputState, b: KeyBindings, other: KeyCode, ctrl: bool, ctrl2: bool)
    requires
        other != b.up,
        other != b.down,
        other != b.left,
        other != b.right,
    ensures
        pressed(pressed(s, b.up, ctrl, b), other, ctrl2, b).kb_up,
        released(pressed(s, b.up, ctrl, b), other, b).kb_up,
        !released(pressed(s, b.up, ctrl, b), b.up, b).kb_up,
{
}

/// Releasing a key never starts an action.
pub proof fn lemma_release_no_action(s: InputState, code: KeyCode, b: KeyBindings)
    ensures
        ({
            let t = released(s, code, b);
            &&& t.fire == s.fire && t.bomb == s.bomb && t.quit == s.quit && t.restart == s.restart
            &&& t.title == s.title && t.any_key == s.any_key && t.config_toggle == s.config_toggle
            &&& t.cheat_toggle == s.cheat_toggle && t.last_raw_key == s.last_raw_key
        }),
{
}

/// Each action key does its own action and leaves the others alone, as long
/// as nothing earlier in the order of keys (the four directions, then fire
/// and space, bomb, quit and Esc, restart) claims the same key: the fire key
/// fires, the bomb key drops a bomb, the quit key quits, the restart key
/// restarts, and a direction key holds its direction without starting any
/// action.
pub proof fn lemma_action_keys(s: InputState, b: KeyBindings, ctrl: bool)
    ensures
        ({
            let t = pressed(s, b.up, ctrl, b);
            &&& t.kb_up
            &&& t.fire == s.fire && t.bomb == s.bomb && t.quit == s.quit && t.restart == s.restart
        }),
        b.fire != b.up && b.fire != b.down && b.fire != b.left && b.fire != b.right ==> ({
            let t = pressed(s, b.fire, ctrl, b);
            &&& t.fire
            &&& t.bomb == s.bomb && t.quit == s.quit && t.restart == s.restart
            &&& t.kb_up == s.kb_up && t.kb_down == s.kb_down && t.kb_left == s.kb_left && t.kb_right == s.kb_right
        }),
        b.bomb != b.up && b.bomb != b.down && b.bomb != b.left && b.bomb != b.right && b.bomb != b.fire
            && b.bomb != KeyCode::Char(' ') ==> ({
            let t = pressed(s, b.bomb, ctrl, b);
            &&& t.bomb
            &&& t.fire == s.fire && t.quit == s.quit && t.restart == s.restart
            &&& t.kb_up == s.kb_up && t.kb_down == s.kb_down && t.kb_left == s.kb_left && t.kb_right == s.kb_right
        }),
        b.quit != b.up && b.quit != b.down && b.quit != b.left && b.quit != b.right && b.quit != b.fire
            && b.quit != KeyCode::Char(' ') && b.quit != b.bomb ==> ({
            let t = pressed(s, b.quit, ctrl, b);
            &&& t.quit
            &&& t.fire == s.fire && t.bomb == s.bomb && t.restart == s.restart
        }),
        b.restart != b.up && b.restart != b.down && b.restart != b.left && b.restart != b.right
            && b.restart != b.fire && b.restart != KeyCode::Char(' ') && b.restart != b.bomb && b.restart != b.quit
            && b.restart != KeyCode::Esc ==> ({
            let t = pressed(s, b.restart, ctrl, b);
            &&& t.restart
            &&& t.fire == s.fire && t.bomb == s.bomb && t.quit == s.quit
        }),
{
}

} // verus!
