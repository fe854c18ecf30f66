//! Events emitted by the hotkey listener.

use vstd::prelude::*;

verus! {

/// A transition of a registered hotkey. The index is the zero-based position
/// of the hotkey in the order of registration.
#[derive(Debug, Clone, Copy, PartialEq, Eq, Structural)]
pub enum HotkeyEvent {
    /// The hotkey at this index was pressed.
    Pressed(usize),
    /// The hotkey at this index was released.
    Released(usize),
}

impl HotkeyEvent {
    /// The table index that the event speaks of.
    pub open spec fn index_spec(self) -> usize {
        match self {
            HotkeyEvent::Pressed(i) => i,
            HotkeyEvent::Released(i) => i,
        }
    }

    /// The table index that the event speaks of.
    pub fn index(&self) -> (i: usize)
        ensures
            i == self.index_spec(),
    {
        match self {
            HotkeyEvent::Pressed(i) => *i,
            HotkeyEvent::Released(i) => *i,
        }
    }
}

} // verus!
