//! Hotkey definition with optional modifiers, and its textual form.

use vstd::prelude::*;
use vstd::string::*;
use crate::key::{Key, ParseError, ParseErrorView};
use crate::text::{str_eq, to_uppercase, uppercase};

verus! {

/// One of the three modifiers that the listener tracks.
#[derive(Debug, Clone, Copy, PartialEq, Eq, Structural)]
pub enum Modifier {
    Shift,
    Ctrl,
    Alt,
}

/// A set of modifiers: the ones a hotkey requires, or the ones that are held.
#[derive(Debug, Clone, Copy, PartialEq, Eq, Structural)]
pub struct Modifiers {
    pub shift: bool,
    pub ctrl: bool,
    pub alt: bool,
}

/// A hotkey consisting of a key and the exact set of modifiers it requires.
#[derive(Debug, Clone, Copy, PartialEq, Eq, Structural)]
pub struct Hotkey {
    pub key: Key,
    pub modifiers: Modifiers,
}

impl Modifier {
    /// The modifier that an uppercase name stands for, if any.
    pub open spec fn from_upper_spec(upper: Seq<char>) -> Option<Modifier> {
        if upper == "SHIFT"@ {
            Some(Modifier::Shift)
        } else if upper == "CTRL"@ || upper == "CONTROL"@ {
            Some(Modifier::Ctrl)
        } else if upper == "ALT"@ {
            Some(Modifier::Alt)
        } else {
            None
        }
    }

    /// Looks up a modifier by a name that is already in uppercase.
    pub fn from_upper(upper: &str) -> (r: Option<Modifier>)
        ensures
            r == Modifier::from_upper_spec(upper@),
    {
        if str_eq(upper, "SHIFT") {
            Some(Modifier::Shift)
        } else if str_eq(upper, "CTRL") || str_eq(upper, "CONTROL") {
            Some(Modifier::Ctrl)
        } else if str_eq(upper, "ALT") {
            Some(Modifier::Alt)
        } else {
            None
        }
    }
}

impl Modifiers {
    /// The empty set.
    pub open spec fn none() -> Modifiers {
        Modifiers { shift: false, ctrl: false, alt: false }
    }

    /// This set with one modifier put in (`held`) or taken out.
    pub open spec fn with_spec(self, m: Modifier, held: bool) -> Modifiers {
        match m {
            Modifier::Shift => Modifiers { shift: held, ctrl: self.ctrl, alt: self.alt },
            Modifier::Ctrl => Modifiers { shift: self.shift, ctrl: held, alt: self.alt },
            Modifier::Alt => Modifiers { shift: self.shift, ctrl: self.ctrl, alt: held },
        }
    }

    /// Whether the set holds the modifier.
    pub open spec fn has_spec(self, m: Modifier) -> bool {
        match m {
            Modifier::Shift => self.shift,
            Modifier::Ctrl => self.ctrl,
            Modifier::Alt => self.alt,
        }
    }

    /// This set with one modifier put in (`held`) or taken out.
    pub fn with(self, m: Modifier, held: bool) -> (r: Modifiers)
        ensures
            r == self.with_spec(m, held),
    {
        match m {
            Modifier::Shift => Modifiers { shift: held, ctrl: self.ctrl, alt: self.alt },
            Modifier::Ctrl => Modifiers { shift: self.shift, ctrl: held, alt: self.alt },
            Modifier::Alt => Modifiers { shift: self.shift, ctrl: self.ctrl, alt: held },
        }
    }

    /// Whether the set holds the modifier.
    pub fn has(self, m: Modifier) -> (r: bool)
        ensures
            r == self.has_spec(m),
    {
        match m {
            Modifier::Shift => self.shift,
            Modifier::Ctrl => self.ctrl,
            Modifier::Alt => self.alt,
        }
    }
}

impl Default for Modifiers {
    fn default() -> (r: Modifiers)
        ensures
            r == Modifiers::none(),
    {
        Modifiers { shift: false, ctrl: false, alt: false }
    }
}

impl Hotkey {
    /// The textual form: the modifiers in the order Ctrl, Alt, Shift, each
    /// followed by `+`, then the key's name.
    pub open spec fn display(self) -> Seq<char> {
        (if self.modifiers.ctrl { "Ctrl+"@ } else { Seq::<char>::empty() })
            + (if self.modifiers.alt { "Alt+"@ } else { Seq::<char>::empty() })
            + (if self.modifiers.shift { "Shift+"@ } else { Seq::<char>::empty() })
            + self.key.name()
    }

    /// Create a new hotkey with no modifiers.
    pub fn new(key: Key) -> (r: Hotkey)
        ensures
            r == (Hotkey { key, modifiers: Modifiers::none() }),
    {
        Hotkey { key, modifiers: Modifiers::default() }
    }

    /// Create a new hotkey with the given modifiers.
    pub fn with_modifiers(key: Key, modifiers: Modifiers) -> (r: Hotkey)
        ensures
            r == (Hotkey { key, modifiers }),
    {
        Hotkey { key, modifiers }
    }

    /// Return a copy of this hotkey with the shift modifier added.
    pub fn with_shift(&self) -> (r: Hotkey)
        ensures
            r == (Hotkey {
                key: self.key,
                modifiers: self.modifiers.with_spec(Modifier::Shift, true),
            }),
    {
        Hotkey {
            key: self.key,
            modifiers: Modifiers {
                shift: true,
                ctrl: self.modifiers.ctrl,
                alt: self.modifiers.alt,
            },
        }
    }

    /// The textual form of the hotkey, such as `Ctrl+Shift+F8`.
    pub fn to_string(&self) -> (r: String)
        ensures
            r@ == self.display(),
    {
        let mut out = String::new();
        if self.modifiers.ctrl {
            out.append("Ctrl+");
        }
        if self.modifiers.alt {
            out.append("Alt+");
        }
        if self.modifiers.shift {
            out.append("Shift+");
        }
        let name = self.key.to_string();
        out.append(name.as_str());
        assert(out@ =~= self.display());
        out
    }
}

/// The tokens of a description: the pieces between its `+` signs. A
/// description without `+` is one token, and an empty piece is a token too.
pub open spec fn split_plus(s: Seq<char>) -> Seq<Seq<char>>
    decreases s.len(),
{
    if s.len() == 0 {
        seq![Seq::<char>::empty()]
    } else {
        let init = split_plus(s.drop_last());
        if s.last() == '+' {
            init.push(Seq::<char>::empty())
        } else {
            init.drop_last().push(init.last().push(s.last()))
        }
    }
}

/// The modifier set that a sequence of tokens names, or the first token
/// among them that names no modifier.
pub open spec fn parse_modifiers(tokens: Seq<Seq<char>>) -> Result<Modifiers, ParseErrorView>
    decreases tokens.len(),
{
    if tokens.len() == 0 {
        Ok(Modifiers::none())
    } else {
        match parse_modifiers(tokens.drop_last()) {
            Err(e) => Err(e),
            Ok(m) => match Modifier::from_upper_spec(uppercase(tokens.last())) {
                Some(k) => Ok(m.with_spec(k, true)),
                None => Err(ParseErrorView::UnknownModifier(tokens.last())),
            },
        }
    }
}

/// What a description means: every token but the last names a modifier, the
/// last names the key. The first unknown modifier is reported before an
/// unknown key.
pub open spec fn parse_hotkey_spec(s: Seq<char>) -> Result<Hotkey, ParseErrorView> {
    let tokens = split_plus(s);
    match parse_modifiers(tokens.drop_last()) {
        Err(e) => Err(e),
        Ok(modifiers) => match Key::parse_spec(tokens.last()) {
            Ok(key) => Ok(Hotkey { key, modifiers }),
            Err(e) => Err(e),
        },
    }
}

/// The tokens put together again, with a `+` between each two.
pub open spec fn join_plus(tokens: Seq<Seq<char>>) -> Seq<char>
    decreases tokens.len(),
{
    if tokens.len() == 0 {
        Seq::<char>::empty()
    } else if tokens.len() == 1 {
        tokens[0]
    } else {
        join_plus(tokens.drop_last()).push('+') + tokens.last()
    }
}

/// What splitting means: a description has at least one token, no token
/// holds a `+`, and the tokens joined by `+` are the description again.
pub proof fn lemma_split_plus_inverts_join(s: Seq<char>)
    ensures
        split_plus(s).len() >= 1,
        forall|i: int| 0 <= i < split_plus(s).len() ==> !(#[trigger] split_plus(s)[i]).contains('+'),
        join_plus(split_plus(s)) == s,
    decreases s.len(),
{
    let tokens = split_plus(s);
    if s.len() == 0 {
        assert(tokens[0] =~= Seq::<char>::empty());
        assert(join_plus(tokens) =~= s);
    } else {
        let init = split_plus(s.drop_last());
        let c = s.last();
        lemma_split_plus_inverts_join(s.drop_last());
        assert(s =~= s.drop_last().push(c));
        if c == '+' {
            assert(tokens.drop_last() =~= init);
            assert(tokens.last() =~= Seq::<char>::empty());
            assert(join_plus(tokens) =~= join_plus(init).push('+'));
            assert forall|i: int| 0 <= i < tokens.len() implies !(#[trigger] tokens[i]).contains(
                '+',
            ) by {
                if i < init.len() {
                    assert(tokens[i] == init[i]);
                }
            }
        } else {
            let grown = init.last().push(c);
            assert(tokens.last() == grown);
            assert(tokens.drop_last() =~= init.drop_last());
            if init.len() == 1 {
                assert(join_plus(tokens) =~= join_plus(init).push(c));
            } else {
                let head = join_plus(init.drop_last()).push('+');
                assert(join_plus(init) == head + init.last());
                assert(join_plus(tokens) == head + grown);
                assert(head + grown =~= (head + init.last()).push(c));
            }
            assert forall|i: int| 0 <= i < tokens.len() implies !(#[trigger] tokens[i]).contains(
                '+',
            ) by {
                if i < init.len() - 1 {
                    assert(tokens[i] == init[i]);
                } else {
                    assert(!init.last().contains('+'));
                    if grown.contains('+') {
                        let j = choose|j: int| 0 <= j < grown.len() && grown[j] == '+';
                        assert(init.last()[j] == '+');
                    }
                }
            }
        }
    }
}

/// Parse a hotkey string like "Shift+F8" or "F10" into a Hotkey.
pub fn parse_hotkey(s: &str) -> (r: Result<Hotkey, ParseError>)
    ensures
        match r {
            Ok(h) => parse_hotkey_spec(s@) == Ok::<Hotkey, ParseErrorView>(h),
            Err(e) => parse_hotkey_spec(s@) == Err::<Hotkey, ParseErrorView>(e@),
        },
{
    let n = s.unicode_len();
    let mut modifiers = Modifiers::default();
    let mut failure: Option<ParseError> = None;
    let mut start: usize = 0;
    let mut i: usize = 0;
    let ghost mut done: Seq<Seq<char>> = Seq::empty();
    assert(s@.take(0) =~= Seq::<char>::empty());
    assert(s@.subrange(0, 0) =~= Seq::<char>::empty());
    assert(split_plus(s@.take(0)) =~= done.push(s@.subrange(0, 0)));
    while i < n
        invariant
            n == s@.len(),
            start <= i <= n,
            split_plus(s@.take(i as int)) == done.push(s@.subrange(start as int, i as int)),
            match failure {
                None => parse_modifiers(done) == Ok::<Modifiers, ParseErrorView>(modifiers),
                Some(e) => parse_modifiers(done) == Err::<Modifiers, ParseErrorView>(e@),
            },
        decreases n - i,
    {
        let c = s.get_char(i);
        proof {
            let prefix = s@.take(i + 1);
            assert(prefix.drop_last() =~= s@.take(i as int));
            assert(prefix.last() == c);
            let init = split_plus(s@.take(i as int));
            assert(init.drop_last() =~= done);
            assert(init.last() == s@.subrange(start as int, i as int));
            assert(s@.subrange(start as int, i as int).push(c) =~= s@.subrange(
                start as int,
                i + 1,
            ));
            assert(s@.subrange(i + 1, i + 1) =~= Seq::<char>::empty());
        }
        if c == '+' {
            let token = s.substring_char(start, i);
            proof {
                assert(done.push(token@).drop_last() =~= done);
            }
            if failure.is_none() {
                let upper = to_uppercase(token);
                match Modifier::from_upper(upper.as_str()) {
                    Some(m) => {
                        modifiers = modifiers.with(m, true);
                    },
                    None => {
                        failure = Some(ParseError::UnknownModifier(String::from_str(token)));
                    },
                }
            }
            proof {
                done = done.push(token@);
            }
            start = i + 1;
        }
        i += 1;
    }
    proof {
        assert(s@.take(n as int) =~= s@);
        assert(split_plus(s@).drop_last() =~= done);
    }
    match failure {
        Some(e) => Err(e),
        None => {
            match Key::parse(s.substring_char(start, n)) {
                Ok(key) => Ok(Hotkey { key, modifiers }),
                Err(e) => Err(e),
            }
        },
    }
}

} // verus!
