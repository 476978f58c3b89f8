use vstd::prelude::*;

use crate::component::LabelVariable;

verus! {

/// The time that passed since the previous tick, in milliseconds.
#[derive(Clone, Copy, Debug, PartialEq, Eq, Structural)]
pub struct DeltaTime {
    pub millis: u64,
}

/// The keys that the game reacts to.
#[derive(Clone, Copy, Debug, PartialEq, Eq, Structural)]
pub enum KeyboardKeys {
    KeyUp,
    KeyLeft,
    KeyRight,
    KeyEscape,
    KeyEnter,
}

/// The set of keys held down, kept up to date from key-down and key-up
/// events.
#[derive(Clone, Copy, Debug, PartialEq, Eq, Structural)]
pub struct PressedKeys {
    pub up: bool,
    pub left: bool,
    pub right: bool,
    pub escape: bool,
    pub enter: bool,
}

impl PressedKeys {
    pub open spec fn holds(self, k: KeyboardKeys) -> bool {
        match k {
            KeyboardKeys::KeyUp => self.up,
            KeyboardKeys::KeyLeft => self.left,
            KeyboardKeys::KeyRight => self.right,
            KeyboardKeys::KeyEscape => self.escape,
            KeyboardKeys::KeyEnter => self.enter,
        }
    }

    pub fn new() -> (r: PressedKeys)
        ensures
            forall|k: KeyboardKeys| !r.holds(k),
    {
        PressedKeys { up: false, left: false, right: false, escape: false, enter: false }
    }

    pub fn contains(&self, k: KeyboardKeys) -> (r: bool)
        ensures
            r == self.holds(k),
    {
        match k {
            KeyboardKeys::KeyUp => self.up,
            KeyboardKeys::KeyLeft => self.left,
            KeyboardKeys::KeyRight => self.right,
            KeyboardKeys::KeyEscape => self.escape,
            KeyboardKeys::KeyEnter => self.enter,
        }
    }

    /// Records a key-down (`down`) or key-up event for `k`.
    pub fn set(&mut self, k: KeyboardKeys, down: bool)
        ensures
            final(self).holds(k) == down,
            forall|o: KeyboardKeys| o != k ==> final(self).holds(o) == old(self).holds(o),
    {
        match k {
            KeyboardKeys::KeyUp => self.up = down,
            KeyboardKeys::KeyLeft => self.left = down,
            KeyboardKeys::KeyRight => self.right = down,
            KeyboardKeys::KeyEscape => self.escape = down,
            KeyboardKeys::KeyEnter => self.enter = down,
        }
    }
}

/// The values that labels show, written by the game loop once per tick.
/// A value that was never written reads as absent.
#[derive(Clone, Copy, Debug, PartialEq, Eq, Structural)]
pub struct VariableDictionary {
    pub fps: Option<u64>,
    pub lives: Option<u64>,
    pub score: Option<u64>,
}

impl VariableDictionary {
    pub open spec fn lookup(self, k: LabelVariable) -> Option<u64> {
        match k {
            LabelVariable::Fps => self.fps,
            LabelVariable::Lives => self.lives,
            LabelVariable::Score => self.score,
        }
    }

    pub fn new() -> (r: VariableDictionary)
        ensures
            forall|k: LabelVariable| r.lookup(k) is None,
    {
        VariableDictionary { fps: None, lives: None, score: None }
    }

    pub fn get(&self, k: LabelVariable) -> (r: Option<u64>)
        ensures
            r == self.lookup(k),
    {
        match k {
            LabelVariable::Fps => self.fps,
            LabelVariable::Lives => self.lives,
            LabelVariable::Score => self.score,
        }
    }

    pub fn insert(&mut self, k: LabelVariable, v: u64)
        ensures
            final(self).lookup(k) == Some(v),
            forall|o: LabelVariable| o != k ==> final(self).lookup(o) == old(self).lookup(o),
    {
        match k {
            LabelVariable::Fps => self.fps = Some(v),
            LabelVariable::Lives => self.lives = Some(v),
            LabelVariable::Score => self.score = Some(v),
        }
    }
}

} // verus!
