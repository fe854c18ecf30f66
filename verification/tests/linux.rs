use evdev::{EventType, InputEvent};
use hotkey_listener::linux::{
    decode_event, decoded, nonblocking_flags, transition_of, RawEvent, KEYBOARD_PROBE_CODE,
};
use hotkey_listener::{Key, KeyTransition, PhysicalKey, Transition};
use nix::fcntl::OFlag;

fn raw(event: InputEvent) -> RawEvent {
    let key_code = match event.kind() {
        evdev::InputEventKind::Key(key) => Some(key.code()),
        _ => None,
    };
    RawEvent { key_code, value: event.value() }
}

#[test]
fn key_codes_are_those_of_the_input_layer() {
    assert_eq!(Key::F1.linux_code(), evdev::Key::KEY_F1.code());
    assert_eq!(Key::F2.linux_code(), evdev::Key::KEY_F2.code());
    assert_eq!(Key::F3.linux_code(), evdev::Key::KEY_F3.code());
    assert_eq!(Key::F4.linux_code(), evdev::Key::KEY_F4.code());
    assert_eq!(Key::F5.linux_code(), evdev::Key::KEY_F5.code());
    assert_eq!(Key::F6.linux_code(), evdev::Key::KEY_F6.code());
    assert_eq!(Key::F7.linux_code(), evdev::Key::KEY_F7.code());
    assert_eq!(Key::F8.linux_code(), evdev::Key::KEY_F8.code());
    assert_eq!(Key::F9.linux_code(), evdev::Key::KEY_F9.code());
    assert_eq!(Key::F10.linux_code(), evdev::Key::KEY_F10.code());
    assert_eq!(Key::F11.linux_code(), evdev::Key::KEY_F11.code());
    assert_eq!(Key::F12.linux_code(), evdev::Key::KEY_F12.code());
    assert_eq!(Key::ScrollLock.linux_code(), evdev::Key::KEY_SCROLLLOCK.code());
    assert_eq!(Key::Pause.linux_code(), evdev::Key::KEY_PAUSE.code());
    assert_eq!(Key::Insert.linux_code(), evdev::Key::KEY_INSERT.code());
    assert_eq!(KEYBOARD_PROBE_CODE, evdev::Key::KEY_A.code());
}

#[test]
fn modifier_codes_are_those_of_the_input_layer() {
    let pairs = [
        (evdev::Key::KEY_LEFTSHIFT, PhysicalKey::ShiftLeft),
        (evdev::Key::KEY_RIGHTSHIFT, PhysicalKey::ShiftRight),
        (evdev::Key::KEY_LEFTCTRL, PhysicalKey::ControlLeft),
        (evdev::Key::KEY_RIGHTCTRL, PhysicalKey::ControlRight),
        (evdev::Key::KEY_LEFTALT, PhysicalKey::AltLeft),
        (evdev::Key::KEY_RIGHTALT, PhysicalKey::AltRight),
        (evdev::Key::KEY_A, PhysicalKey::Other),
        (evdev::Key::KEY_F13, PhysicalKey::Other),
        (evdev::Key::KEY_F8, PhysicalKey::Trigger(Key::F8)),
        (evdev::Key::KEY_PAUSE, PhysicalKey::Trigger(Key::Pause)),
    ];
    for (code, key) in pairs {
        assert_eq!(PhysicalKey::from_linux_code(code.code()), key);
    }
}

#[test]
fn every_key_code_round_trips() {
    let keys = [
        Key::F1, Key::F2, Key::F3, Key::F4, Key::F5, Key::F6, Key::F7, Key::F8, Key::F9,
        Key::F10, Key::F11, Key::F12, Key::ScrollLock, Key::Pause, Key::Insert,
    ];
    for key in keys {
        assert_eq!(PhysicalKey::from_linux_code(key.linux_code()), PhysicalKey::Trigger(key));
    }
}

#[test]
fn values_one_and_zero_are_press_and_release() {
    assert_eq!(Transition::from_value(1), Transition::Press);
    assert_eq!(Transition::from_value(0), Transition::Release);
    assert_eq!(Transition::from_value(2), Transition::Repeat);
    assert_eq!(Transition::from_value(-1), Transition::Repeat);
    assert_eq!(
        transition_of(66, 1),
        KeyTransition { key: PhysicalKey::Trigger(Key::F8), transition: Transition::Press }
    );
}

#[test]
fn key_events_decode_to_transitions() {
    let down = InputEvent::new(EventType::KEY, evdev::Key::KEY_F8.code(), 1);
    assert_eq!(
        decode_event(&raw(down)),
        Some(KeyTransition { key: PhysicalKey::Trigger(Key::F8), transition: Transition::Press })
    );
    let up = InputEvent::new(EventType::KEY, evdev::Key::KEY_RIGHTSHIFT.code(), 0);
    assert_eq!(
        decode_event(&raw(up)),
        Some(KeyTransition { key: PhysicalKey::ShiftRight, transition: Transition::Release })
    );
    let held = InputEvent::new(EventType::KEY, evdev::Key::KEY_F8.code(), 2);
    assert_eq!(
        decode_event(&raw(held)),
        Some(KeyTransition { key: PhysicalKey::Trigger(Key::F8), transition: Transition::Repeat })
    );
}

#[test]
fn other_events_decode_to_nothing() {
    assert_eq!(decode_event(&raw(InputEvent::new(EventType::SYNCHRONIZATION, 0, 0))), None);
    assert_eq!(decode_event(&raw(InputEvent::new(EventType::RELATIVE, 66, 1))), None);
    assert_eq!(decode_event(&raw(InputEvent::new(EventType::MISC, 4, 66))), None);
}

#[test]
fn nonblocking_flags_set_the_flag_and_keep_the_known_ones() {
    let flags = nonblocking_flags(OFlag::O_RDWR.bits());
    assert_eq!(flags, (OFlag::O_RDWR | OFlag::O_NONBLOCK).bits());
    assert_ne!(flags, OFlag::O_RDWR.bits());
    let again = nonblocking_flags(flags);
    assert_eq!(again, flags);
    assert_eq!(nonblocking_flags(0), OFlag::O_NONBLOCK.bits());
}

#[test]
fn decoding_goes_by_the_key_code_and_the_value() {
    assert_eq!(
        decoded(Some(66), 1),
        Some(KeyTransition { key: PhysicalKey::Trigger(Key::F8), transition: Transition::Press })
    );
    assert_eq!(
        decoded(Some(42), 0),
        Some(KeyTransition { key: PhysicalKey::ShiftLeft, transition: Transition::Release })
    );
    assert_eq!(
        decoded(Some(30), 2),
        Some(KeyTransition { key: PhysicalKey::Other, transition: Transition::Repeat })
    );
    assert_eq!(decoded(None, 1), None);
    assert_eq!(decoded(None, 0), None);
}

#[test]
fn raw_events_decode_by_their_fields() {
    assert_eq!(
        decode_event(&RawEvent { key_code: Some(68), value: 1 }),
        Some(KeyTransition { key: PhysicalKey::Trigger(Key::F10), transition: Transition::Press })
    );
    assert_eq!(
        decode_event(&RawEvent { key_code: Some(100), value: 0 }),
        Some(KeyTransition { key: PhysicalKey::AltRight, transition: Transition::Release })
    );
    assert_eq!(decode_event(&RawEvent { key_code: None, value: 1 }), None);
}
