//! The raw-device backend's view of keys: Linux key codes, and the decoding
//! of input events into key transitions.

use vstd::prelude::*;
use crate::input::{KeyTransition, PhysicalKey, Transition};
use crate::key::Key;

verus! {

/// The code of the alphabetic key whose presence marks a device as a
/// keyboard.
pub const KEYBOARD_PROBE_CODE: u16 = 30;

/// One event of a raw input device, as far as the listener reads it.
#[derive(Debug, Clone, Copy)]
pub struct RawEvent {
    /// The key code, where the event is a key event, and nothing where it
    /// is of another kind.
    pub key_code: Option<u16>,
    /// The raw value of the event.
    pub value: i32,
}

/// The file status flags with the non-blocking flag set, as
/// `OFlag::from_bits_truncate` and `OFlag::O_NONBLOCK` of nix give them.
pub uninterp spec fn nonblocking_spec(flags: i32) -> i32;

/// Calls `OFlag::from_bits_truncate` on the flags, joins `OFlag::O_NONBLOCK`
/// to the result and takes its `bits`. The result is a function of the
/// flags alone on a given platform, and the contract gives it a name.
#[verifier::external_body]
fn oflag_nonblocking(flags: i32) -> (r: i32)
    ensures
        r == nonblocking_spec(flags),
{
    (nix::fcntl::OFlag::from_bits_truncate(flags) | nix::fcntl::OFlag::O_NONBLOCK).bits()
}

/// The file status flags to set on a device so that reads do not block,
/// from the flags that it has.
pub fn nonblocking_flags(flags: i32) -> (r: i32)
    ensures
        r == nonblocking_spec(flags),
{
    oflag_nonblocking(flags)
}

impl Key {
    /// The Linux key code of the key.
    pub open spec fn linux_code_spec(self) -> u16 {
        match self {
            Key::F1 => 59,
            Key::F2 => 60,
            Key::F3 => 61,
            Key::F4 => 62,
            Key::F5 => 63,
            Key::F6 => 64,
            Key::F7 => 65,
            Key::F8 => 66,
            Key::F9 => 67,
            Key::F10 => 68,
            Key::F11 => 87,
            Key::F12 => 88,
            Key::ScrollLock => 70,
            Key::Pause => 119,
            Key::Insert => 110,
        }
    }

    /// The Linux key code of the key.
    pub fn linux_code(self) -> (code: u16)
        ensures
            code == self.linux_code_spec(),
    {
        match self {
            Key::F1 => 59,
            Key::F2 => 60,
            Key::F3 => 61,
            Key::F4 => 62,
            Key::F5 => 63,
            Key::F6 => 64,
            Key::F7 => 65,
            Key::F8 => 66,
            Key::F9 => 67,
            Key::F10 => 68,
            Key::F11 => 87,
            Key::F12 => 88,
            Key::ScrollLock => 70,
            Key::Pause => 119,
            Key::Insert => 110,
        }
    }
}

impl PhysicalKey {
    /// The physical key that a Linux key code stands for.
    pub open spec fn from_linux_code_spec(code: u16) -> PhysicalKey {
        if code == 42 {
            PhysicalKey::ShiftLeft
        } else if code == 54 {
            PhysicalKey::ShiftRight
        } else if code == 29 {
            PhysicalKey::ControlLeft
        } else if code == 97 {
            PhysicalKey::ControlRight
        } else if code == 56 {
            PhysicalKey::AltLeft
        } else if code == 100 {
            PhysicalKey::AltRight
        } else if exists|k: Key| k.linux_code_spec() == code {
            PhysicalKey::Trigger(choose|k: Key| k.linux_code_spec() == code)
        } else {
            PhysicalKey::Other
        }
    }

    /// The physical key that a Linux key code stands for.
    pub fn from_linux_code(code: u16) -> (key: PhysicalKey)
        ensures
            key == PhysicalKey::from_linux_code_spec(code),
    {
        let key = match code {
            42 => PhysicalKey::ShiftLeft,
            54 => PhysicalKey::ShiftRight,
            29 => PhysicalKey::ControlLeft,
            97 => PhysicalKey::ControlRight,
            56 => PhysicalKey::AltLeft,
            100 => PhysicalKey::AltRight,
            59 => PhysicalKey::Trigger(Key::F1),
            60 => PhysicalKey::Trigger(Key::F2),
            61 => PhysicalKey::Trigger(Key::F3),
            62 => PhysicalKey::Trigger(Key::F4),
            63 => PhysicalKey::Trigger(Key::F5),
            64 => PhysicalKey::Trigger(Key::F6),
            65 => PhysicalKey::Trigger(Key::F7),
            66 => PhysicalKey::Trigger(Key::F8),
            67 => PhysicalKey::Trigger(Key::F9),
            68 => PhysicalKey::Trigger(Key::F10),
            87 => PhysicalKey::Trigger(Key::F11),
            88 => PhysicalKey::Trigger(Key::F12),
            70 => PhysicalKey::Trigger(Key::ScrollLock),
            119 => PhysicalKey::Trigger(Key::Pause),
            110 => PhysicalKey::Trigger(Key::Insert),
            _ => PhysicalKey::Other,
        };
        proof {
            match key {
                PhysicalKey::Trigger(k) => {
                    assert(k.linux_code_spec() == code);
                    lemma_linux_codes_differ(k, choose|k: Key| k.linux_code_spec() == code);
                },
                PhysicalKey::Other => {
                    assert forall|k: Key| k.linux_code_spec() != code by {}
                },
                _ => {},
            }
        }
        key
    }
}

/// No two keys share a Linux key code.
pub proof fn lemma_linux_codes_differ(a: Key, b: Key)
    requires
        a.linux_code_spec() == b.linux_code_spec(),
    ensures
        a == b,
{
}

/// A key's code stands for that key again.
pub proof fn lemma_linux_code_round_trip(key: Key)
    ensures
        PhysicalKey::from_linux_code_spec(key.linux_code_spec()) == PhysicalKey::Trigger(key),
{
    let code = key.linux_code_spec();
    lemma_linux_codes_differ(key, choose|k: Key| k.linux_code_spec() == code);
}

/// The transition that a key event with this code and this value is.
pub open spec fn transition_of_spec(code: u16, value: i32) -> KeyTransition {
    KeyTransition {
        key: PhysicalKey::from_linux_code_spec(code),
        transition: Transition::from_value_spec(value),
    }
}

/// The transition that a key event with this code and this value is.
pub fn transition_of(code: u16, value: i32) -> (t: KeyTransition)
    ensures
        t == transition_of_spec(code, value),
{
    KeyTransition { key: PhysicalKey::from_linux_code(code), transition: Transition::from_value(value) }
}

/// What an event decodes to, given the key code that it carries if it is a
/// key event, and its value: the transition of that code and value for a
/// key event, and nothing for an event of another kind.
pub open spec fn decoded_spec(key_code: Option<u16>, value: i32) -> Option<KeyTransition> {
    match key_code {
        Some(code) => Some(transition_of_spec(code, value)),
        None => None,
    }
}

/// What an event decodes to, given the key code that it carries if it is a
/// key event, and its value.
pub fn decoded(key_code: Option<u16>, value: i32) -> (t: Option<KeyTransition>)
    ensures
        t == decoded_spec(key_code, value),
{
    match key_code {
        Some(code) => Some(transition_of(code, value)),
        None => None,
    }
}

/// Decodes an event of a raw input device: the transition of a key event,
/// and nothing for an event of another kind.
pub fn decode_event(event: &RawEvent) -> (t: Option<KeyTransition>)
    ensures
        t == decoded_spec(event.key_code, event.value),
{
    decoded(event.key_code, event.value)
}

} // verus!
