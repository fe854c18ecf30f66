//! The builder that collects the hotkey table.

use vstd::prelude::*;
use crate::engine::Engine;
use crate::hook::HookListener;
use crate::hotkey::{Hotkey, Modifiers};
use crate::input::PhysicalKey;
use crate::input::Backend;
use crate::supervisor::{Health, Worker};

verus! {

/// Builder for a hotkey listener: an ordered list of hotkeys. The position
/// of a hotkey in the list is the index that its events carry.
pub struct HotkeyListenerBuilder {
    hotkeys: Vec<Hotkey>,
}

impl View for HotkeyListenerBuilder {
    type V = Seq<Hotkey>;

    closed spec fn view(&self) -> Seq<Hotkey> {
        self.hotkeys@
    }
}

impl HotkeyListenerBuilder {
    /// Create a new builder, with no hotkey registered.
    pub fn new() -> (builder: HotkeyListenerBuilder)
        ensures
            builder@ == Seq::<Hotkey>::empty(),
    {
        HotkeyListenerBuilder { hotkeys: Vec::new() }
    }

    /// Add a hotkey to listen for. It gets the next index; the hotkeys
    /// registered before keep theirs.
    pub fn add_hotkey(self, hotkey: Hotkey) -> (builder: HotkeyListenerBuilder)
        ensures
            builder@ == self@.push(hotkey),
    {
        let mut hotkeys = self.hotkeys;
        hotkeys.push(hotkey);
        HotkeyListenerBuilder { hotkeys }
    }

    /// The number of hotkeys registered so far.
    pub fn len(&self) -> (n: usize)
        ensures
            n == self@.len(),
    {
        self.hotkeys.len()
    }

    /// The hotkeys registered so far, in order.
    pub fn hotkeys(&self) -> (table: &Vec<Hotkey>)
        ensures
            table@ == self@,
    {
        &self.hotkeys
    }

    /// The matching engine for the registered hotkeys and the given
    /// backend, with no modifier held.
    pub fn into_engine(self, backend: Backend) -> (engine: Engine)
        ensures
            engine.table() == self@,
            engine.held() == Modifiers::none(),
            engine.backend() == backend,
    {
        Engine::new(self.hotkeys, backend)
    }

    /// The listener of the hook backend for the registered hotkeys, with
    /// no key down and no modifier held.
    pub fn into_hook_listener(self) -> (listener: HookListener)
        ensures
            listener.table() == self@,
            listener.held() == Modifiers::none(),
            listener.down_keys() == Seq::<PhysicalKey>::empty(),
            listener.backend() == Backend::OsHook,
    {
        HookListener::new(self.hotkeys)
    }

    /// The worker of the device poller for the registered hotkeys, over a
    /// healthy device set.
    pub fn into_worker(self) -> (worker: Worker)
        ensures
            worker.backend() == Backend::DevicePoller,
            worker.table() == self@,
            worker.held() == Modifiers::none(),
            worker.health() == Health::Healthy,
    {
        Worker::new(self.hotkeys)
    }
}

impl Default for HotkeyListenerBuilder {
    fn default() -> (builder: HotkeyListenerBuilder)
        ensures
            builder@ == Seq::<Hotkey>::empty(),
    {
        HotkeyListenerBuilder::new()
    }
}

/// Registration fixes the indices: the hotkey added as the `i`-th stays at
/// position `i` whatever is added after it.
pub proof fn lemma_registration_keeps_indices(table: Seq<Hotkey>, added: Hotkey, i: int)
    requires
        0 <= i < table.len(),
    ensures
        table.push(added)[i] == table[i],
        table.push(added)[table.len() as int] == added,
{
}

} // verus!
