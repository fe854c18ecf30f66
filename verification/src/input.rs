//! Physical key transitions, as a backend reports them.

use vstd::prelude::*;
use crate::hotkey::{Modifier, Modifiers};
use crate::key::Key;

verus! {

/// A physical key as the listener sees it: a key that can be registered, one
/// of the modifier keys (left and right told apart), or any other key.
#[derive(Debug, Clone, Copy, PartialEq, Eq, Structural)]
pub enum PhysicalKey {
    Trigger(Key),
    ShiftLeft,
    ShiftRight,
    ControlLeft,
    ControlRight,
    AltLeft,
    AltRight,
    Other,
}

/// What happened to a key: it went down, it went up, or it is still down and
/// the keyboard repeats it.
#[derive(Debug, Clone, Copy, PartialEq, Eq, Structural)]
pub enum Transition {
    Press,
    Release,
    Repeat,
}

/// The source of key transitions, which also fixes the release policy.
#[derive(Debug, Clone, Copy, PartialEq, Eq, Structural)]
pub enum Backend {
    /// Raw input devices, polled. A release is reported only while the held
    /// modifiers equal the hotkey's.
    DevicePoller,
    /// One process-wide hook. A release is reported whatever is held.
    OsHook,
}

/// One key transition.
#[derive(Debug, Clone, Copy, PartialEq, Eq, Structural)]
pub struct KeyTransition {
    pub key: PhysicalKey,
    pub transition: Transition,
}

impl PhysicalKey {
    /// The logical modifier that the key stands for: the left and the right
    /// key of a pair are the same modifier.
    pub open spec fn modifier_spec(self) -> Option<Modifier> {
        match self {
            PhysicalKey::ShiftLeft | PhysicalKey::ShiftRight => Some(Modifier::Shift),
            PhysicalKey::ControlLeft | PhysicalKey::ControlRight => Some(Modifier::Ctrl),
            PhysicalKey::AltLeft | PhysicalKey::AltRight => Some(Modifier::Alt),
            _ => None,
        }
    }

    /// The logical modifier that the key stands for, if it is a modifier key.
    pub fn modifier(self) -> (r: Option<Modifier>)
        ensures
            r == self.modifier_spec(),
    {
        match self {
            PhysicalKey::ShiftLeft | PhysicalKey::ShiftRight => Some(Modifier::Shift),
            PhysicalKey::ControlLeft | PhysicalKey::ControlRight => Some(Modifier::Ctrl),
            PhysicalKey::AltLeft | PhysicalKey::AltRight => Some(Modifier::Alt),
            _ => None,
        }
    }
}

impl Transition {
    /// The transition that a raw device's event value means: 1 is a press,
    /// 0 a release, and every other value (2 is autorepeat) neither.
    pub open spec fn from_value_spec(value: i32) -> Transition {
        if value == 1 {
            Transition::Press
        } else if value == 0 {
            Transition::Release
        } else {
            Transition::Repeat
        }
    }

    /// The transition that a raw device's event value means.
    pub fn from_value(value: i32) -> (r: Transition)
        ensures
            r == Transition::from_value_spec(value),
    {
        if value == 1 {
            Transition::Press
        } else if value == 0 {
            Transition::Release
        } else {
            Transition::Repeat
        }
    }
}

impl Modifiers {
    /// The held modifiers after one transition. A press of a modifier key
    /// sets its flag and a release clears it, whatever the other key of the
    /// pair does; a repeat, and any key that is no modifier, changes nothing.
    pub open spec fn after(self, key: PhysicalKey, transition: Transition) -> Modifiers {
        match key.modifier_spec() {
            Some(m) => match transition {
                Transition::Press => self.with_spec(m, true),
                Transition::Release => self.with_spec(m, false),
                Transition::Repeat => self,
            },
            None => self,
        }
    }

    /// Updates the held modifiers by one transition.
    pub fn apply(&mut self, key: PhysicalKey, transition: Transition)
        ensures
            *final(self) == old(self).after(key, transition),
    {
        match key.modifier() {
            Some(m) => match transition {
                Transition::Press => {
                    *self = self.with(m, true);
                },
                Transition::Release => {
                    *self = self.with(m, false);
                },
                Transition::Repeat => {},
            },
            None => {},
        }
    }
}

/// A transition touches at most one of the three flags, and only when the
/// key is that modifier's.
pub proof fn lemma_after_touches_one_flag(
    held: Modifiers,
    key: PhysicalKey,
    transition: Transition,
    m: Modifier,
)
    requires
        key.modifier_spec() != Some(m),
    ensures
        held.after(key, transition).has_spec(m) == held.has_spec(m),
{
}

/// The last release wins: after a release of either key of a pair the
/// modifier is not held, even if the other key of the pair was pressed
/// before and never released.
pub proof fn lemma_release_clears(held: Modifiers, key: PhysicalKey, m: Modifier)
    requires
        key.modifier_spec() == Some(m),
    ensures
        !held.after(key, Transition::Release).has_spec(m),
        held.after(key, Transition::Press).has_spec(m),
{
}

} // verus!
