//! The worker's decisions: when to poll, when to rescan a faulted device
//! set, and when to stop. The caller performs each action and reports what
//! came of it; time is a count of milliseconds on a monotonic clock.

use vstd::prelude::*;
use crate::engine::{events_of, held_after, Engine};
use crate::event::HotkeyEvent;
use crate::hotkey::{Hotkey, Modifiers};
use crate::input::{Backend, KeyTransition, PhysicalKey, Transition};
use crate::matcher::matched_physical;

verus! {

/// How long a faulted device set is left alone before it is rescanned.
pub const RESCAN_COOLDOWN_MS: u64 = 3000;

/// The pause between two poll ticks.
pub const POLL_INTERVAL_MS: u64 = 10;

/// The pause between discovering devices and configuring them, which gives
/// a device that has just connected time to settle.
pub const SETTLE_DELAY_MS: u64 = 100;

/// The health of the device set.
#[derive(Debug, Clone, Copy, PartialEq, Eq, Structural)]
pub enum Health {
    /// Every device reads well.
    Healthy,
    /// A read failed at the time `since`; the cooldown runs.
    Faulted { since: u64 },
    /// The cooldown is over and a rescan has been asked for.
    Rescanning,
}

/// What the worker does next.
#[derive(Debug, Clone, Copy, PartialEq, Eq, Structural)]
pub enum Action {
    /// Read what the devices hold, feed it to the engine, then pause.
    Poll,
    /// Discover and open the devices anew, drain what they still hold, then
    /// report the outcome.
    Rescan,
    /// Leave the loop.
    Stop,
}

impl Health {
    /// Whether the cooldown of a fault is over at the time `now`.
    pub open spec fn cooled_down(self, now: u64) -> bool {
        match self {
            Health::Faulted { since } => now >= since && now - since >= RESCAN_COOLDOWN_MS,
            _ => false,
        }
    }

    /// The action of a tick. A worker that is told to stop does so at once.
    /// A fault whose cooldown is over asks for a rescan, and a rescan that
    /// was asked for stays asked for until its outcome is reported. In every
    /// other state the devices are polled, also while a fault cools down.
    pub open spec fn action_at(self, running: bool, now: u64) -> Action {
        if !running {
            Action::Stop
        } else if self == Health::Rescanning || self.cooled_down(now) {
            Action::Rescan
        } else {
            Action::Poll
        }
    }

    /// The health after a tick.
    pub open spec fn after_tick(self, running: bool, now: u64) -> Health {
        if running && self.cooled_down(now) {
            Health::Rescanning
        } else {
            self
        }
    }

    /// The health after a poll: a fault on any device makes a healthy set
    /// faulted. A set that is faulted already keeps the time of its fault.
    pub open spec fn after_poll(self, fault: bool, now: u64) -> Health {
        if fault && self == Health::Healthy {
            Health::Faulted { since: now }
        } else {
            self
        }
    }

    /// The health after a rescan that was asked for: healthy where it
    /// succeeded; faulted with a fresh cooldown where it failed. An outcome
    /// that nobody asked for changes nothing.
    pub open spec fn after_rescan(self, success: bool, now: u64) -> Health {
        if self == Health::Rescanning {
            if success {
                Health::Healthy
            } else {
                Health::Faulted { since: now }
            }
        } else {
            self
        }
    }
}

/// The held modifiers after the outcome of a rescan: none where the device
/// set was replaced, unchanged otherwise.
pub open spec fn held_after_rescan(health: Health, held: Modifiers, success: bool) -> Modifiers {
    if health == Health::Rescanning && success {
        Modifiers::none()
    } else {
        held
    }
}

/// The worker of the device poller: the engine and the health of the
/// device set.
pub struct Worker {
    engine: Engine,
    health: Health,
}

impl Worker {
    /// The health of the device set.
    pub closed spec fn health(&self) -> Health {
        self.health
    }

    /// The registered hotkeys.
    pub closed spec fn table(&self) -> Seq<Hotkey> {
        self.engine.table()
    }

    /// The modifiers that are held.
    pub closed spec fn held(&self) -> Modifiers {
        self.engine.held()
    }

    /// The backend whose release policy the worker matches by.
    pub closed spec fn backend(&self) -> Backend {
        self.engine.backend()
    }

    /// A worker over a healthy device set, with no modifier held.
    pub fn new(table: Vec<Hotkey>) -> (worker: Worker)
        ensures
            worker.backend() == Backend::DevicePoller,
            worker.health() == Health::Healthy,
            worker.table() == table@,
            worker.held() == Modifiers::none(),
    {
        Worker { engine: Engine::new(table, Backend::DevicePoller), health: Health::Healthy }
    }

    /// The health of the device set.
    pub fn current_health(&self) -> (health: Health)
        ensures
            health == self.health(),
    {
        self.health
    }

    /// The modifiers that are held.
    pub fn modifiers(&self) -> (held: Modifiers)
        ensures
            held == self.held(),
    {
        self.engine.modifiers()
    }

    /// Decides what a tick does, given the stop flag as it was read at the
    /// start of the tick and the time.
    pub fn next_action(&mut self, running: bool, now: u64) -> (action: Action)
        ensures
            final(self).backend() == old(self).backend(),
            action == old(self).health().action_at(running, now),
            final(self).health() == old(self).health().after_tick(running, now),
            final(self).table() == old(self).table(),
            final(self).held() == old(self).held(),
    {
        if !running {
            return Action::Stop;
        }
        match self.health {
            Health::Healthy => Action::Poll,
            Health::Rescanning => Action::Rescan,
            Health::Faulted { since } => {
                if now >= since && now - since >= RESCAN_COOLDOWN_MS {
                    self.health = Health::Rescanning;
                    Action::Rescan
                } else {
                    Action::Poll
                }
            },
        }
    }

    /// Takes the transitions that one poll read, in the order they were
    /// read, and whether any device failed with more than "would block".
    /// Returns the events to send, in order.
    pub fn poll_finished(&mut self, batch: &Vec<KeyTransition>, fault: bool, now: u64) -> (events:
        Vec<HotkeyEvent>)
        ensures
            final(self).backend() == old(self).backend(),
            final(self).health() == old(self).health().after_poll(fault, now),
            final(self).table() == old(self).table(),
            final(self).held() == held_after(old(self).held(), batch@),
            events@ == events_of(
                old(self).table(),
                old(self).backend(),
                old(self).held(),
                batch@,
            ),
    {
        let events = self.engine.process(batch);
        if fault {
            match self.health {
                Health::Healthy => {
                    self.health = Health::Faulted { since: now };
                },
                _ => {},
            }
        }
        events
    }

    /// Takes the outcome of a rescan. Where it succeeded the caller has
    /// replaced the whole device set, and the held modifiers are forgotten.
    pub fn rescan_finished(&mut self, success: bool, now: u64)
        ensures
            final(self).backend() == old(self).backend(),
            final(self).health() == old(self).health().after_rescan(success, now),
            final(self).table() == old(self).table(),
            final(self).held() == held_after_rescan(old(self).health(), old(self).held(), success),
    {
        match self.health {
            Health::Rescanning => {
                if success {
                    self.engine.reset();
                    self.health = Health::Healthy;
                } else {
                    self.health = Health::Faulted { since: now };
                }
            },
            _ => {},
        }
    }
}

/// A worker whose stop flag reads false stops at the next tick, whatever
/// its health and whatever the time, and its state stays as it was.
pub proof fn lemma_stop_is_observed(health: Health, now: u64)
    ensures
        health.action_at(false, now) == Action::Stop,
        health.after_tick(false, now) == health,
{
}

/// No rescan before the cooldown is over: while less than the cooldown has
/// passed since the fault, a tick polls and the fault stays as it was.
pub proof fn lemma_cooldown_holds_rescan_back(since: u64, now: u64)
    requires
        now < since + RESCAN_COOLDOWN_MS,
    ensures
        (Health::Faulted { since }).action_at(true, now) == Action::Poll,
        (Health::Faulted { since }).after_tick(true, now) == (Health::Faulted { since }),
{
}

/// Reconnection recovery: a fault at `since`, a tick once the cooldown is
/// over, and a rescan that succeeds lead back to a healthy set with no
/// modifier held, whatever was held before. A press of the key of an entry
/// that requires a modifier then gives no event for that entry: the
/// modifier counts again only once it is pressed again.
pub proof fn lemma_recovery_resets_modifiers(
    table: Seq<Hotkey>,
    held_before: Modifiers,
    fault_at: u64,
    now: u64,
    rescanned_at: u64,
    i: usize,
)
    requires
        now >= fault_at + RESCAN_COOLDOWN_MS,
        i < table.len() <= usize::MAX,
        table[i as int].modifiers != Modifiers::none(),
    ensures
        Health::Healthy.after_poll(true, fault_at) == (Health::Faulted { since: fault_at }),
        (Health::Faulted { since: fault_at }).action_at(true, now) == Action::Rescan,
        (Health::Faulted { since: fault_at }).after_tick(true, now) == Health::Rescanning,
        Health::Rescanning.after_rescan(true, rescanned_at) == Health::Healthy,
        held_after_rescan(Health::Rescanning, held_before, true) == Modifiers::none(),
        forall|e: HotkeyEvent|
            #[trigger] matched_physical(
                table,
                PhysicalKey::Trigger(table[i as int].key),
                Transition::Press,
                held_after_rescan(Health::Rescanning, held_before, true).after(
                    PhysicalKey::Trigger(table[i as int].key),
                    Transition::Press,
                ),
                Backend::DevicePoller,
            ).contains(e) ==> e.index_spec() != i,
{
    crate::engine::lemma_reset_forgets_held(table, Backend::DevicePoller, i);
}

/// A rescan that fails leaves the set faulted and starts the cooldown anew;
/// the held modifiers stay.
pub proof fn lemma_failed_rescan_restarts_cooldown(held: Modifiers, now: u64)
    ensures
        Health::Rescanning.after_rescan(false, now) == (Health::Faulted { since: now }),
        held_after_rescan(Health::Rescanning, held, false) == held,
        !(Health::Faulted { since: now }).cooled_down(now),
{
}

} // verus!
