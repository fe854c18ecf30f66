use hotkey_listener::{parse_hotkey, Hotkey, Key, Modifier, Modifiers, ParseError};

#[test]
fn test_parse_simple_key() {
    let hotkey = parse_hotkey("F8").unwrap();
    assert_eq!(hotkey.key, Key::F8);
    assert!(!hotkey.modifiers.shift);
    assert!(!hotkey.modifiers.ctrl);
    assert!(!hotkey.modifiers.alt);
}

#[test]
fn test_parse_with_shift() {
    let hotkey = parse_hotkey("Shift+F8").unwrap();
    assert_eq!(hotkey.key, Key::F8);
    assert!(hotkey.modifiers.shift);
    assert!(!hotkey.modifiers.ctrl);
    assert!(!hotkey.modifiers.alt);
}

#[test]
fn test_parse_with_multiple_modifiers() {
    let hotkey = parse_hotkey("Ctrl+Alt+F1").unwrap();
    assert_eq!(hotkey.key, Key::F1);
    assert!(!hotkey.modifiers.shift);
    assert!(hotkey.modifiers.ctrl);
    assert!(hotkey.modifiers.alt);
}

#[test]
fn test_parse_case_insensitive() {
    let hotkey = parse_hotkey("SHIFT+f8").unwrap();
    assert_eq!(hotkey.key, Key::F8);
    assert!(hotkey.modifiers.shift);
}

#[test]
fn test_parse_unknown_key() {
    assert!(parse_hotkey("Unknown").is_err());
}

#[test]
fn test_parse_unknown_modifier() {
    assert!(parse_hotkey("Meta+F8").is_err());
}

#[test]
fn test_display() {
    let hotkey = parse_hotkey("Shift+F8").unwrap();
    assert_eq!(hotkey.to_string(), "Shift+F8");
}

#[test]
fn parse_reports_the_unknown_modifier_token() {
    match parse_hotkey("Meta+F8") {
        Err(ParseError::UnknownModifier(token)) => assert_eq!(token, "Meta"),
        other => panic!("unexpected: {:?}", other),
    }
}

#[test]
fn parse_reports_the_unknown_key_token() {
    match parse_hotkey("Shift+Unknown") {
        Err(ParseError::UnknownKey(token)) => assert_eq!(token, "Unknown"),
        other => panic!("unexpected: {:?}", other),
    }
    match Key::parse("f13") {
        Err(e) => assert_eq!(e.token(), "f13"),
        Ok(k) => panic!("unexpected: {:?}", k),
    }
}

#[test]
fn parse_reports_the_first_unknown_modifier_before_the_key() {
    match parse_hotkey("Shift+Meta+Hyper+Nope") {
        Err(ParseError::UnknownModifier(token)) => assert_eq!(token, "Meta"),
        other => panic!("unexpected: {:?}", other),
    }
}

#[test]
fn parse_rejects_empty_pieces() {
    match parse_hotkey("") {
        Err(ParseError::UnknownKey(token)) => assert_eq!(token, ""),
        other => panic!("unexpected: {:?}", other),
    }
    match parse_hotkey("Shift+") {
        Err(ParseError::UnknownKey(token)) => assert_eq!(token, ""),
        other => panic!("unexpected: {:?}", other),
    }
    match parse_hotkey("+F8") {
        Err(ParseError::UnknownModifier(token)) => assert_eq!(token, ""),
        other => panic!("unexpected: {:?}", other),
    }
    match parse_hotkey("Shift++F8") {
        Err(ParseError::UnknownModifier(token)) => assert_eq!(token, ""),
        other => panic!("unexpected: {:?}", other),
    }
}

#[test]
fn parse_modifiers_in_any_order_and_case() {
    let a = parse_hotkey("alt+CONTROL+shift+ScrollLock").unwrap();
    let b = parse_hotkey("Shift+Ctrl+Alt+scroll_lock").unwrap();
    assert_eq!(a, b);
    assert_eq!(a.key, Key::ScrollLock);
    assert_eq!(a.modifiers, Modifiers { shift: true, ctrl: true, alt: true });
    let twice = parse_hotkey("Shift+shift+F2").unwrap();
    assert_eq!(twice, Hotkey::new(Key::F2).with_shift());
}

#[test]
fn parse_goes_by_the_uppercase_form() {
    // The long s has `S` as its uppercase form, so this token reads SHIFT.
    let hotkey = parse_hotkey("\u{17f}hift+F8").unwrap();
    assert_eq!(hotkey, Hotkey::new(Key::F8).with_shift());
    assert_eq!(Key::parse("pause").unwrap(), Key::Pause);
    assert_eq!(Key::parse("Insert").unwrap(), Key::Insert);
}

#[test]
fn from_upper_takes_only_uppercase_names() {
    assert_eq!(Key::from_upper("F10"), Some(Key::F10));
    assert_eq!(Key::from_upper("f10"), None);
    assert_eq!(Key::from_upper("SCROLL_LOCK"), Some(Key::ScrollLock));
    assert_eq!(Key::from_upper("SCROLLLOCK"), Some(Key::ScrollLock));
    assert_eq!(Key::from_upper("ScrollLock"), None);
    assert_eq!(Key::from_upper(""), None);
    assert_eq!(Modifier::from_upper("CONTROL"), Some(Modifier::Ctrl));
    assert_eq!(Modifier::from_upper("CTRL"), Some(Modifier::Ctrl));
    assert_eq!(Modifier::from_upper("SHIFT"), Some(Modifier::Shift));
    assert_eq!(Modifier::from_upper("ALT"), Some(Modifier::Alt));
    assert_eq!(Modifier::from_upper("Alt"), None);
    assert_eq!(Modifier::from_upper("META"), None);
}

#[test]
fn every_key_parses_from_its_own_name() {
    let keys = [
        Key::F1, Key::F2, Key::F3, Key::F4, Key::F5, Key::F6, Key::F7, Key::F8, Key::F9,
        Key::F10, Key::F11, Key::F12, Key::ScrollLock, Key::Pause, Key::Insert,
    ];
    for key in keys {
        assert_eq!(Key::parse(&key.to_string()).unwrap(), key);
    }
    assert_eq!(Key::F12.to_string(), "F12");
    assert_eq!(Key::ScrollLock.to_string(), "ScrollLock");
}

#[test]
fn display_orders_modifiers_ctrl_alt_shift() {
    let all = Hotkey::with_modifiers(Key::F1, Modifiers { shift: true, ctrl: true, alt: true });
    assert_eq!(all.to_string(), "Ctrl+Alt+Shift+F1");
    assert_eq!(Hotkey::new(Key::Pause).to_string(), "Pause");
    let alt = Hotkey::with_modifiers(Key::Insert, Modifiers { shift: false, ctrl: false, alt: true });
    assert_eq!(alt.to_string(), "Alt+Insert");
    assert_eq!(parse_hotkey(&all.to_string()).unwrap(), all);
}

#[test]
fn hotkey_constructors() {
    assert_eq!(Hotkey::new(Key::F3).modifiers, Modifiers::default());
    assert_eq!(Modifiers::default(), Modifiers { shift: false, ctrl: false, alt: false });
    let ctrl = Modifiers::default().with(Modifier::Ctrl, true);
    assert!(ctrl.has(Modifier::Ctrl));
    assert!(!ctrl.has(Modifier::Shift));
    let h = Hotkey::with_modifiers(Key::F3, ctrl).with_shift();
    assert_eq!(h.key, Key::F3);
    assert_eq!(h.modifiers, Modifiers { shift: true, ctrl: true, alt: false });
}

#[test]
fn error_messages_name_the_token() {
    assert_eq!(parse_hotkey("Meta+F8").unwrap_err().message(), "Unknown modifier: Meta");
    assert_eq!(parse_hotkey("Shift+F13").unwrap_err().message(), "Unknown key: F13");
    assert_eq!(Key::parse("").unwrap_err().message(), "Unknown key: ");
}
