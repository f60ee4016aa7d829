//! The player's input: which controls are held, and the latch that makes one press of the fire
//! key give one shot.
use vstd::prelude::*;

verus! {

/// The keys the game reacts to.
#[derive(Clone, Copy, PartialEq, Eq, Structural)]
pub enum Key {
    Up,
    Down,
    Left,
    Right,
    Space,
}

/// Which controls are held, and whether the current press of the fire key has already shot.
#[derive(Clone, Copy, PartialEq, Eq, Structural)]
pub struct InputState {
    pub up: bool,
    pub down: bool,
    pub left: bool,
    pub right: bool,
    pub shoot: bool,
    pub has_shot: bool,
}

impl Default for InputState {
    fn default() -> (r: Self)
        ensures
            r == (InputState {
                up: false,
                down: false,
                left: false,
                right: false,
                shoot: false,
                has_shot: false,
            }),
    {
        InputState { up: false, down: false, left: false, right: false, shoot: false, has_shot: false }
    }
}

impl InputState {
    /// Takes in that `key` was pressed (`pressed`) or released. The arrow keys set their
    /// control; the fire key sets `shoot`, and releasing it makes the next press shoot again.
    /// Any other key (`None`) changes nothing.
    pub fn on_key(&mut self, key: Option<Key>, pressed: bool)
        ensures
            *final(self) == match key {
                Some(Key::Up) => InputState { up: pressed, ..*old(self) },
                Some(Key::Down) => InputState { down: pressed, ..*old(self) },
                Some(Key::Left) => InputState { left: pressed, ..*old(self) },
                Some(Key::Right) => InputState { right: pressed, ..*old(self) },
                Some(Key::Space) => InputState {
                    shoot: pressed,
                    has_shot: if pressed { old(self).has_shot } else { false },
                    ..*old(self)
                },
                None => *old(self),
            },
    {
        match key {
            Some(Key::Up) => self.up = pressed,
            Some(Key::Down) => self.down = pressed,
            Some(Key::Left) => self.left = pressed,
            Some(Key::Right) => self.right = pressed,
            Some(Key::Space) => {
                self.shoot = pressed;
                if !pressed {
                    self.has_shot = false;
                }
            },
            None => {},
        }
    }

    /// Whether to fire a shot now: the fire key is held and this press has not shot yet; a shot
    /// marks the press as used.
    pub fn take_shot(&mut self) -> (r: bool)
        ensures
            r == (old(self).shoot && !old(self).has_shot),
            *final(self) == (InputState { has_shot: old(self).has_shot || r, ..*old(self) }),
    {
        if self.shoot && !self.has_shot {
            self.has_shot = true;
            true
        } else {
            false
        }
    }
}

} // verus!
