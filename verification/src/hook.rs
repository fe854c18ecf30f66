//! The hook backend's view of keys. The hook reports only "down" and "up",
//! and a key that is held is reported "down" again and again; the listener
//! remembers which keys are down and so tells a press from a repeat.

use vstd::prelude::*;
use crate::engine::Engine;
use crate::event::HotkeyEvent;
use crate::hotkey::{Hotkey, Modifiers};
use crate::input::{Backend, PhysicalKey, Transition};
use crate::matcher::matched_physical;

verus! {

/// The keys without every occurrence of `key`, in their order.
pub open spec fn without(keys: Seq<PhysicalKey>, key: PhysicalKey) -> Seq<PhysicalKey>
    decreases keys.len(),
{
    if keys.len() == 0 {
        keys
    } else if keys.last() == key {
        without(keys.drop_last(), key)
    } else {
        without(keys.drop_last(), key).push(keys.last())
    }
}

/// What a notification of the hook is, given the keys that are down: an
/// "up" is a release; a "down" of a key that is down already is a repeat;
/// any other "down" is a press. `Other` stands for many keys and is never
/// remembered, so its "down" is always a press.
pub open spec fn hook_transition(down_keys: Seq<PhysicalKey>, key: PhysicalKey, down: bool)
    -> Transition {
    if !down {
        Transition::Release
    } else if key != PhysicalKey::Other && down_keys.contains(key) {
        Transition::Repeat
    } else {
        Transition::Press
    }
}

/// The keys that are down after a notification of the hook.
pub open spec fn keys_after(down_keys: Seq<PhysicalKey>, key: PhysicalKey, down: bool) -> Seq<
    PhysicalKey,
> {
    if key == PhysicalKey::Other {
        down_keys
    } else if !down {
        without(down_keys, key)
    } else if down_keys.contains(key) {
        down_keys
    } else {
        down_keys.push(key)
    }
}

/// The keys that the hook has reported down and not yet up.
pub struct KeysDown {
    keys: Vec<PhysicalKey>,
}

impl View for KeysDown {
    type V = Seq<PhysicalKey>;

    closed spec fn view(&self) -> Seq<PhysicalKey> {
        self.keys@
    }
}

impl KeysDown {
    /// No key is down.
    pub fn new() -> (keys: KeysDown)
        ensures
            keys@ == Seq::<PhysicalKey>::empty(),
    {
        KeysDown { keys: Vec::new() }
    }

    /// Whether the key is down.
    pub fn is_down(&self, key: PhysicalKey) -> (r: bool)
        ensures
            r == self@.contains(key),
    {
        let n = self.keys.len();
        let mut i: usize = 0;
        while i < n
            invariant
                n == self.keys@.len(),
                i <= n,
                forall|j: int| 0 <= j < i ==> self.keys@[j] != key,
            decreases n - i,
        {
            if self.keys[i] == key {
                return true;
            }
            i += 1;
        }
        false
    }

    /// Takes one notification of the hook and says what it is: a press, a
    /// release or a repeat.
    pub fn observe(&mut self, key: PhysicalKey, down: bool) -> (transition: Transition)
        ensures
            transition == hook_transition(old(self)@, key, down),
            final(self)@ == keys_after(old(self)@, key, down),
    {
        if key == PhysicalKey::Other {
            return if down {
                Transition::Press
            } else {
                Transition::Release
            };
        }
        if down {
            if self.is_down(key) {
                Transition::Repeat
            } else {
                self.keys.push(key);
                Transition::Press
            }
        } else {
            let mut rest: Vec<PhysicalKey> = Vec::new();
            let n = self.keys.len();
            let mut i: usize = 0;
            assert(self.keys@.take(0) =~= Seq::<PhysicalKey>::empty());
            while i < n
                invariant
                    n == self.keys@.len(),
                    i <= n,
                    self.keys@ == old(self)@,
                    rest@ == without(self.keys@.take(i as int), key),
                decreases n - i,
            {
                proof {
                    assert(self.keys@.take(i + 1).drop_last() =~= self.keys@.take(i as int));
                    assert(self.keys@.take(i + 1).last() == self.keys@[i as int]);
                }
                if self.keys[i] != key {
                    rest.push(self.keys[i]);
                }
                i += 1;
            }
            assert(self.keys@.take(n as int) =~= self.keys@);
            self.keys = rest;
            Transition::Release
        }
    }
}

/// A key is among the keys without `key` exactly when it was among the keys
/// and is another key.
pub proof fn lemma_without_contains(keys: Seq<PhysicalKey>, key: PhysicalKey, k: PhysicalKey)
    ensures
        without(keys, key).contains(k) <==> (keys.contains(k) && k != key),
    decreases keys.len(),
{
    if keys.len() > 0 {
        let init = keys.drop_last();
        let last = keys.last();
        lemma_without_contains(init, key, k);
        let before = without(init, key);
        if init.contains(k) {
            let j = choose|j: int| 0 <= j < init.len() && init[j] == k;
            assert(keys[j] == k);
        }
        if keys.contains(k) {
            let j = choose|j: int| 0 <= j < keys.len() && keys[j] == k;
            if j < init.len() {
                assert(init[j] == k);
            }
        }
        if last != key {
            let all = before.push(last);
            if before.contains(k) {
                let j = choose|j: int| 0 <= j < before.len() && before[j] == k;
                assert(all[j] == k);
            }
            if k == last {
                assert(all[before.len() as int] == k);
            }
            if all.contains(k) {
                let j = choose|j: int| 0 <= j < all.len() && all[j] == k;
                if j < before.len() {
                    assert(before[j] == k);
                }
            }
        }
    }
}

/// Autorepeat filtering on the hook: once a key has been reported down, a
/// further "down" of it is a repeat; once it has been reported up, its next
/// "down" is a press again.
pub proof fn lemma_held_key_repeats(down_keys: Seq<PhysicalKey>, key: PhysicalKey)
    requires
        key != PhysicalKey::Other,
    ensures
        hook_transition(keys_after(down_keys, key, true), key, true) == Transition::Repeat,
        hook_transition(keys_after(down_keys, key, false), key, true) == Transition::Press,
{
    let after = keys_after(down_keys, key, true);
    if !down_keys.contains(key) {
        assert(after[down_keys.len() as int] == key);
    }
    lemma_without_contains(down_keys, key, key);
}

/// A notification of one key does not change whether another key is down.
pub proof fn lemma_other_keys_stay(
    down_keys: Seq<PhysicalKey>,
    key: PhysicalKey,
    down: bool,
    other: PhysicalKey,
)
    requires
        other != key,
    ensures
        keys_after(down_keys, key, down).contains(other) == down_keys.contains(other),
{
    lemma_without_contains(down_keys, key, other);
    let pushed = down_keys.push(key);
    if down_keys.contains(other) {
        let j = choose|j: int| 0 <= j < down_keys.len() && down_keys[j] == other;
        assert(pushed[j] == other);
    }
    if pushed.contains(other) {
        let j = choose|j: int| 0 <= j < pushed.len() && pushed[j] == other;
        assert(down_keys[j] == other);
    }
}

/// The listener of the hook backend: the engine, and the keys that are
/// down.
pub struct HookListener {
    engine: Engine,
    down: KeysDown,
}

impl HookListener {
    /// The registered hotkeys.
    pub closed spec fn table(&self) -> Seq<Hotkey> {
        self.engine.table()
    }

    /// The modifiers that are held.
    pub closed spec fn held(&self) -> Modifiers {
        self.engine.held()
    }

    /// The keys that are down.
    pub closed spec fn down_keys(&self) -> Seq<PhysicalKey> {
        self.down@
    }

    /// The backend whose release policy the listener matches by.
    pub closed spec fn backend(&self) -> Backend {
        self.engine.backend()
    }

    /// A listener for the given table, with no key down.
    pub fn new(table: Vec<Hotkey>) -> (listener: HookListener)
        ensures
            listener.table() == table@,
            listener.held() == Modifiers::none(),
            listener.down_keys() == Seq::<PhysicalKey>::empty(),
            listener.backend() == Backend::OsHook,
    {
        HookListener { engine: Engine::new(table, Backend::OsHook), down: KeysDown::new() }
    }

    /// The modifiers that are held.
    pub fn modifiers(&self) -> (held: Modifiers)
        ensures
            held == self.held(),
    {
        self.engine.modifiers()
    }

    /// Takes one notification of the hook, "down" or "up" of a key, and
    /// returns the events to send, in table order. A "down" of a key that
    /// is down already is a repeat and gives nothing.
    pub fn on_key(&mut self, key: PhysicalKey, down: bool) -> (events: Vec<HotkeyEvent>)
        ensures
            final(self).table() == old(self).table(),
            final(self).backend() == old(self).backend(),
            final(self).down_keys() == keys_after(old(self).down_keys(), key, down),
            final(self).held() == old(self).held().after(
                key,
                hook_transition(old(self).down_keys(), key, down),
            ),
            events@ == matched_physical(
                old(self).table(),
                key,
                hook_transition(old(self).down_keys(), key, down),
                old(self).held().after(key, hook_transition(old(self).down_keys(), key, down)),
                old(self).backend(),
            ),
    {
        let transition = self.down.observe(key, down);
        self.engine.on_transition(key, transition)
    }
}

} // verus!
