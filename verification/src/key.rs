//! Platform-agnostic key representation.

use vstd::prelude::*;
use vstd::string::*;
use crate::text::{str_eq, to_uppercase, uppercase};

verus! {

/// A key that can be registered as a hotkey.
#[derive(Debug, Clone, Copy, PartialEq, Eq, Hash, Structural)]
pub enum Key {
    F1,
    F2,
    F3,
    F4,
    F5,
    F6,
    F7,
    F8,
    F9,
    F10,
    F11,
    F12,
    ScrollLock,
    Pause,
    Insert,
}

/// Why a hotkey description was rejected. Each variant carries the token
/// that was not recognised, as it was written.
#[derive(Debug)]
pub enum ParseError {
    /// A token before the last `+` names no modifier.
    UnknownModifier(String),
    /// The last token names no key.
    UnknownKey(String),
}

/// The mathematical model of a `ParseError`.
pub enum ParseErrorView {
    UnknownModifier(Seq<char>),
    UnknownKey(Seq<char>),
}

impl View for ParseError {
    type V = ParseErrorView;

    open spec fn view(&self) -> ParseErrorView {
        match self {
            ParseError::UnknownModifier(t) => ParseErrorView::UnknownModifier(t@),
            ParseError::UnknownKey(t) => ParseErrorView::UnknownKey(t@),
        }
    }
}

impl ParseError {
    /// The message of the error: what was unknown, then the token.
    pub open spec fn message_spec(self) -> Seq<char> {
        match self@ {
            ParseErrorView::UnknownModifier(t) => "Unknown modifier: "@ + t,
            ParseErrorView::UnknownKey(t) => "Unknown key: "@ + t,
        }
    }

    /// The message of the error, such as `Unknown key: F13`.
    pub fn message(&self) -> (r: String)
        ensures
            r@ == self.message_spec(),
    {
        match self {
            ParseError::UnknownModifier(t) => String::from_str("Unknown modifier: ").concat(
                t.as_str(),
            ),
            ParseError::UnknownKey(t) => String::from_str("Unknown key: ").concat(t.as_str()),
        }
    }

    /// The token that was not recognised.
    pub fn token(&self) -> (t: &str)
        ensures
            match self@ {
                ParseErrorView::UnknownModifier(s) => t@ == s,
                ParseErrorView::UnknownKey(s) => t@ == s,
            },
    {
        match self {
            ParseError::UnknownModifier(t) => t.as_str(),
            ParseError::UnknownKey(t) => t.as_str(),
        }
    }
}

impl Key {
    /// The canonical name of the key.
    pub open spec fn name(self) -> Seq<char> {
        match self {
            Key::F1 => "F1"@,
            Key::F2 => "F2"@,
            Key::F3 => "F3"@,
            Key::F4 => "F4"@,
            Key::F5 => "F5"@,
            Key::F6 => "F6"@,
            Key::F7 => "F7"@,
            Key::F8 => "F8"@,
            Key::F9 => "F9"@,
            Key::F10 => "F10"@,
            Key::F11 => "F11"@,
            Key::F12 => "F12"@,
            Key::ScrollLock => "ScrollLock"@,
            Key::Pause => "Pause"@,
            Key::Insert => "Insert"@,
        }
    }

    /// The key that an uppercase name stands for, if any.
    pub open spec fn from_upper_spec(upper: Seq<char>) -> Option<Key> {
        if upper == "F1"@ {
            Some(Key::F1)
        } else if upper == "F2"@ {
            Some(Key::F2)
        } else if upper == "F3"@ {
            Some(Key::F3)
        } else if upper == "F4"@ {
            Some(Key::F4)
        } else if upper == "F5"@ {
            Some(Key::F5)
        } else if upper == "F6"@ {
            Some(Key::F6)
        } else if upper == "F7"@ {
            Some(Key::F7)
        } else if upper == "F8"@ {
            Some(Key::F8)
        } else if upper == "F9"@ {
            Some(Key::F9)
        } else if upper == "F10"@ {
            Some(Key::F10)
        } else if upper == "F11"@ {
            Some(Key::F11)
        } else if upper == "F12"@ {
            Some(Key::F12)
        } else if upper == "SCROLLLOCK"@ || upper == "SCROLL_LOCK"@ {
            Some(Key::ScrollLock)
        } else if upper == "PAUSE"@ {
            Some(Key::Pause)
        } else if upper == "INSERT"@ {
            Some(Key::Insert)
        } else {
            None
        }
    }

    /// What `parse` makes of a description: the key named by its uppercase
    /// form, or the description itself as the unknown token.
    pub open spec fn parse_spec(s: Seq<char>) -> Result<Key, ParseErrorView> {
        match Key::from_upper_spec(uppercase(s)) {
            Some(k) => Ok(k),
            None => Err(ParseErrorView::UnknownKey(s)),
        }
    }

    /// Looks up a key by a name that is already in uppercase.
    pub fn from_upper(upper: &str) -> (r: Option<Key>)
        ensures
            r == Key::from_upper_spec(upper@),
    {
        if str_eq(upper, "F1") {
            Some(Key::F1)
        } else if str_eq(upper, "F2") {
            Some(Key::F2)
        } else if str_eq(upper, "F3") {
            Some(Key::F3)
        } else if str_eq(upper, "F4") {
            Some(Key::F4)
        } else if str_eq(upper, "F5") {
            Some(Key::F5)
        } else if str_eq(upper, "F6") {
            Some(Key::F6)
        } else if str_eq(upper, "F7") {
            Some(Key::F7)
        } else if str_eq(upper, "F8") {
            Some(Key::F8)
        } else if str_eq(upper, "F9") {
            Some(Key::F9)
        } else if str_eq(upper, "F10") {
            Some(Key::F10)
        } else if str_eq(upper, "F11") {
            Some(Key::F11)
        } else if str_eq(upper, "F12") {
            Some(Key::F12)
        } else if str_eq(upper, "SCROLLLOCK") || str_eq(upper, "SCROLL_LOCK") {
            Some(Key::ScrollLock)
        } else if str_eq(upper, "PAUSE") {
            Some(Key::Pause)
        } else if str_eq(upper, "INSERT") {
            Some(Key::Insert)
        } else {
            None
        }
    }

    /// Parses a key from a name like "F8" or "ScrollLock", in any case.
    pub fn parse(s: &str) -> (r: Result<Key, ParseError>)
        ensures
            match r {
                Ok(k) => Key::parse_spec(s@) == Ok::<Key, ParseErrorView>(k),
                Err(e) => Key::parse_spec(s@) == Err::<Key, ParseErrorView>(e@),
            },
    {
        let upper = to_uppercase(s);
        match Key::from_upper(upper.as_str()) {
            Some(k) => Ok(k),
            None => Err(ParseError::UnknownKey(String::from_str(s))),
        }
    }

    /// The canonical name of the key, as a string.
    pub fn to_string(&self) -> (r: String)
        ensures
            r@ == self.name(),
    {
        match self {
            Key::F1 => String::from_str("F1"),
            Key::F2 => String::from_str("F2"),
            Key::F3 => String::from_str("F3"),
            Key::F4 => String::from_str("F4"),
            Key::F5 => String::from_str("F5"),
            Key::F6 => String::from_str("F6"),
            Key::F7 => String::from_str("F7"),
            Key::F8 => String::from_str("F8"),
            Key::F9 => String::from_str("F9"),
            Key::F10 => String::from_str("F10"),
            Key::F11 => String::from_str("F11"),
            Key::F12 => String::from_str("F12"),
            Key::ScrollLock => String::from_str("ScrollLock"),
            Key::Pause => String::from_str("Pause"),
            Key::Insert => String::from_str("Insert"),
        }
    }
}

} // verus!
