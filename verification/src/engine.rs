//! The matching engine: the hotkey table, the held modifiers and the
//! release policy of the backend, as the background worker owns them.

use vstd::prelude::*;
use crate::event::HotkeyEvent;
use crate::hotkey::{Hotkey, Modifiers};
use crate::input::{Backend, KeyTransition, PhysicalKey, Transition};
use crate::key::Key;
use crate::matcher::{
    entry_event, lemma_matched_contains, lemma_matched_single, match_transition, matched,
    matched_physical,
};

verus! {

/// The state that turns key transitions into hotkey events. The table and
/// the backend never change after construction; only the held modifiers do.
pub struct Engine {
    table: Vec<Hotkey>,
    held: Modifiers,
    backend: Backend,
}

/// The held modifiers after a run of transitions, taken in order.
pub open spec fn held_after(held: Modifiers, batch: Seq<KeyTransition>) -> Modifiers
    decreases batch.len(),
{
    if batch.len() == 0 {
        held
    } else {
        held_after(held, batch.drop_last()).after(batch.last().key, batch.last().transition)
    }
}

/// The events of a run of transitions: those of each transition, matched
/// against the modifiers held once it has been applied, in the order of the
/// transitions.
pub open spec fn events_of(
    table: Seq<Hotkey>,
    backend: Backend,
    held: Modifiers,
    batch: Seq<KeyTransition>,
) -> Seq<HotkeyEvent>
    decreases batch.len(),
{
    if batch.len() == 0 {
        Seq::<HotkeyEvent>::empty()
    } else {
        events_of(table, backend, held, batch.drop_last()) + matched_physical(
            table,
            batch.last().key,
            batch.last().transition,
            held_after(held, batch),
            backend,
        )
    }
}

impl Engine {
    /// The registered hotkeys, in the order of registration.
    pub closed spec fn table(&self) -> Seq<Hotkey> {
        self.table@
    }

    /// The modifiers that are held.
    pub closed spec fn held(&self) -> Modifiers {
        self.held
    }

    /// The backend that the engine serves.
    pub closed spec fn backend(&self) -> Backend {
        self.backend
    }

    /// An engine for the given table, with no modifier held.
    pub fn new(table: Vec<Hotkey>, backend: Backend) -> (engine: Engine)
        ensures
            engine.table() == table@,
            engine.held() == Modifiers::none(),
            engine.backend() == backend,
    {
        Engine { table, held: Modifiers::default(), backend }
    }

    /// The registered hotkeys, in the order of registration.
    pub fn hotkeys(&self) -> (table: &Vec<Hotkey>)
        ensures
            table@ == self.table(),
    {
        &self.table
    }

    /// The modifiers that are held.
    pub fn modifiers(&self) -> (held: Modifiers)
        ensures
            held == self.held(),
    {
        self.held
    }

    /// The backend that the engine serves.
    pub fn release_policy(&self) -> (backend: Backend)
        ensures
            backend == self.backend(),
    {
        self.backend
    }

    /// Forgets what is held. The table stays.
    pub fn reset(&mut self)
        ensures
            final(self).held() == Modifiers::none(),
            final(self).table() == old(self).table(),
            final(self).backend() == old(self).backend(),
    {
        self.held = Modifiers::default();
    }

    /// Takes one key transition: updates the held modifiers, then matches
    /// the key against the table and returns the events, in table order.
    pub fn on_transition(&mut self, key: PhysicalKey, transition: Transition) -> (events: Vec<
        HotkeyEvent,
    >)
        ensures
            final(self).table() == old(self).table(),
            final(self).backend() == old(self).backend(),
            final(self).held() == old(self).held().after(key, transition),
            events@ == matched_physical(
                old(self).table(),
                key,
                transition,
                old(self).held().after(key, transition),
                old(self).backend(),
            ),
    {
        self.held.apply(key, transition);
        match_transition(&self.table, key, transition, self.held, self.backend)
    }

    /// Takes a run of key transitions in order and returns their events in
    /// the same order.
    pub fn process(&mut self, batch: &Vec<KeyTransition>) -> (events: Vec<HotkeyEvent>)
        ensures
            final(self).table() == old(self).table(),
            final(self).backend() == old(self).backend(),
            final(self).held() == held_after(old(self).held(), batch@),
            events@ == events_of(old(self).table(), old(self).backend(), old(self).held(), batch@),
    {
        let mut events: Vec<HotkeyEvent> = Vec::new();
        let n = batch.len();
        let mut i: usize = 0;
        assert(batch@.take(0) =~= Seq::<KeyTransition>::empty());
        while i < n
            invariant
                n == batch@.len(),
                i <= n,
                self.table() == old(self).table(),
                self.backend() == old(self).backend(),
                self.held() == held_after(old(self).held(), batch@.take(i as int)),
                events@ == events_of(
                    old(self).table(),
                    old(self).backend(),
                    old(self).held(),
                    batch@.take(i as int),
                ),
            decreases n - i,
        {
            let t = batch[i];
            proof {
                assert(batch@.take(i + 1).drop_last() =~= batch@.take(i as int));
                assert(batch@.take(i + 1).last() == t);
            }
            let mut more = self.on_transition(t.key, t.transition);
            events.append(&mut more);
            i += 1;
        }
        assert(batch@.take(n as int) =~= batch@);
        events
    }
}

/// The held modifiers after two runs in a row are those after the second
/// run, started from what the first one left.
pub proof fn lemma_held_after_concat(
    held: Modifiers,
    first: Seq<KeyTransition>,
    second: Seq<KeyTransition>,
)
    ensures
        held_after(held, first + second) == held_after(held_after(held, first), second),
    decreases second.len(),
{
    if second.len() == 0 {
        assert(first + second =~= first);
    } else {
        assert((first + second).drop_last() =~= first + second.drop_last());
        assert((first + second).last() == second.last());
        lemma_held_after_concat(held, first, second.drop_last());
    }
}

/// Order preservation: the events of two runs of transitions in a row are
/// the events of the first run followed by those of the second. No event of
/// a later transition comes before one of an earlier transition.
pub proof fn lemma_events_keep_order(
    table: Seq<Hotkey>,
    backend: Backend,
    held: Modifiers,
    first: Seq<KeyTransition>,
    second: Seq<KeyTransition>,
)
    ensures
        events_of(table, backend, held, first + second) == events_of(table, backend, held, first)
            + events_of(table, backend, held_after(held, first), second),
    decreases second.len(),
{
    let mid = held_after(held, first);
    if second.len() == 0 {
        assert(first + second =~= first);
        assert(events_of(table, backend, held, first) + events_of(table, backend, mid, second)
            =~= events_of(table, backend, held, first));
    } else {
        let all = first + second;
        assert(all.drop_last() =~= first + second.drop_last());
        assert(all.last() == second.last());
        lemma_events_keep_order(table, backend, held, first, second.drop_last());
        lemma_held_after_concat(held, first, second);
        let tail = matched_physical(
            table,
            second.last().key,
            second.last().transition,
            held_after(mid, second),
            backend,
        );
        assert(events_of(table, backend, held, all) =~= events_of(table, backend, held, first) + (
        events_of(table, backend, mid, second.drop_last()) + tail));
    }
}

/// The events of a single transition are those that the matcher gives for
/// it once the held modifiers are updated.
pub proof fn lemma_events_of_one(
    table: Seq<Hotkey>,
    backend: Backend,
    held: Modifiers,
    t: KeyTransition,
)
    ensures
        events_of(table, backend, held, seq![t]) == matched_physical(
            table,
            t.key,
            t.transition,
            held.after(t.key, t.transition),
            backend,
        ),
        held_after(held, seq![t]) == held.after(t.key, t.transition),
{
    let one = seq![t];
    assert(one.drop_last() =~= Seq::<KeyTransition>::empty());
    assert(one.last() == t);
    assert(held_after(held, one.drop_last()) == held);
    assert(events_of(table, backend, held, one.drop_last()) =~= Seq::<HotkeyEvent>::empty());
    assert(events_of(table, backend, held, one) =~= matched_physical(
        table,
        t.key,
        t.transition,
        held.after(t.key, t.transition),
        backend,
    ));
}

/// Autorepeat filtering: a repeat of any key, put after any run of
/// transitions, adds no event and leaves the held modifiers as they were.
pub proof fn lemma_repeat_adds_nothing(
    table: Seq<Hotkey>,
    backend: Backend,
    held: Modifiers,
    batch: Seq<KeyTransition>,
    key: PhysicalKey,
)
    ensures
        events_of(
            table,
            backend,
            held,
            batch.push(KeyTransition { key, transition: Transition::Repeat }),
        ) == events_of(table, backend, held, batch),
        held_after(held, batch.push(KeyTransition { key, transition: Transition::Repeat }))
            == held_after(held, batch),
{
    let t = KeyTransition { key, transition: Transition::Repeat };
    let all = batch.push(t);
    assert(all.drop_last() =~= batch);
    assert(all.last() == t);
    crate::matcher::lemma_repeat_gives_nothing(table, key, held_after(held, batch), backend);
    assert(events_of(table, backend, held, all) =~= events_of(table, backend, held, batch));
}

/// The run press(K1), press(K2), release(K1).
pub open spec fn press_press_release(k1: Key, k2: Key) -> Seq<KeyTransition> {
    seq![
        KeyTransition { key: PhysicalKey::Trigger(k1), transition: Transition::Press },
        KeyTransition { key: PhysicalKey::Trigger(k2), transition: Transition::Press },
        KeyTransition { key: PhysicalKey::Trigger(k1), transition: Transition::Release },
    ]
}

/// Order preservation on three transitions: where the entry at `a` is the
/// only one for the key K1 and the entry at `b` the only one for another
/// key K2, and the held modifiers are those of both, the run press(K1),
/// press(K2), release(K1) gives exactly `Pressed(a)`, `Pressed(b)`,
/// `Released(a)`, in that order. The same three events come out, in the
/// same order, however the run is cut into two ticks.
pub proof fn lemma_three_transitions_in_order(
    table: Seq<Hotkey>,
    backend: Backend,
    held: Modifiers,
    a: usize,
    b: usize,
)
    requires
        table.len() <= usize::MAX,
        a < table.len(),
        b < table.len(),
        table[a as int].key != table[b as int].key,
        table[a as int].modifiers == held,
        table[b as int].modifiers == held,
        forall|j: int|
            0 <= j < table.len() && j != a && j != b ==> (#[trigger] table[j]).key
                != table[a as int].key && table[j].key != table[b as int].key,
    ensures
        events_of(
            table,
            backend,
            held,
            press_press_release(table[a as int].key, table[b as int].key),
        ) == seq![HotkeyEvent::Pressed(a), HotkeyEvent::Pressed(b), HotkeyEvent::Released(a)],
        forall|first: Seq<KeyTransition>, second: Seq<KeyTransition>|
            #[trigger] (first + second) == press_press_release(
                table[a as int].key,
                table[b as int].key,
            ) ==> events_of(table, backend, held, first) + events_of(
                table,
                backend,
                held_after(held, first),
                second,
            ) == seq![HotkeyEvent::Pressed(a), HotkeyEvent::Pressed(b), HotkeyEvent::Released(a)],
{
    let k1 = table[a as int].key;
    let k2 = table[b as int].key;
    let run = press_press_release(k1, k2);
    let two = run.drop_last();
    let one = two.drop_last();
    let expected = seq![
        HotkeyEvent::Pressed(a),
        HotkeyEvent::Pressed(b),
        HotkeyEvent::Released(a),
    ];
    assert(one.drop_last() =~= Seq::<KeyTransition>::empty());
    assert(held_after(held, one.drop_last()) == held);
    assert(held_after(held, one) == held);
    assert(held_after(held, two) == held);
    assert(held_after(held, run) == held);
    assert(forall|j: int|
        0 <= j < table.len() && j != a ==> entry_event(
            #[trigger] table[j],
            j as usize,
            k1,
            Transition::Press,
            held,
            backend,
        ) is None);
    assert(forall|j: int|
        0 <= j < table.len() && j != a ==> entry_event(
            #[trigger] table[j],
            j as usize,
            k1,
            Transition::Release,
            held,
            backend,
        ) is None);
    assert(forall|j: int|
        0 <= j < table.len() && j != b ==> entry_event(
            #[trigger] table[j],
            j as usize,
            k2,
            Transition::Press,
            held,
            backend,
        ) is None);
    lemma_matched_single(table, k1, Transition::Press, held, backend, a);
    lemma_matched_single(table, k2, Transition::Press, held, backend, b);
    lemma_matched_single(table, k1, Transition::Release, held, backend, a);
    assert(events_of(table, backend, held, one.drop_last()) =~= Seq::<HotkeyEvent>::empty());
    assert(events_of(table, backend, held, one) =~= seq![HotkeyEvent::Pressed(a)]);
    assert(events_of(table, backend, held, two) =~= seq![
        HotkeyEvent::Pressed(a),
        HotkeyEvent::Pressed(b),
    ]);
    assert(events_of(table, backend, held, run) =~= expected);
    assert forall|first: Seq<KeyTransition>, second: Seq<KeyTransition>| #[trigger]
        (first + second) == run implies events_of(table, backend, held, first) + events_of(
        table,
        backend,
        held_after(held, first),
        second,
    ) == expected by {
        lemma_events_keep_order(table, backend, held, first, second);
    }
}

/// After a reset, a press of the key of an entry that requires a modifier
/// gives no event for that entry until the modifier is pressed again: what
/// was held before the reset no longer counts.
pub proof fn lemma_reset_forgets_held(table: Seq<Hotkey>, backend: Backend, i: usize)
    requires
        i < table.len() <= usize::MAX,
        table[i as int].modifiers != Modifiers::none(),
    ensures
        forall|e: HotkeyEvent|
            #[trigger] matched_physical(
                table,
                PhysicalKey::Trigger(table[i as int].key),
                Transition::Press,
                Modifiers::none().after(PhysicalKey::Trigger(table[i as int].key), Transition::Press),
                backend,
            ).contains(e) ==> e.index_spec() != i,
{
    let key = table[i as int].key;
    assert forall|e: HotkeyEvent| #[trigger]
        matched(table, key, Transition::Press, Modifiers::none(), backend).contains(
            e,
        ) implies e.index_spec() != i by {
        lemma_matched_contains(table, key, Transition::Press, Modifiers::none(), backend, e);
    }
}

} // verus!
