//! The matcher: from one key transition and the held modifiers to the events
//! of the registered hotkeys.

use vstd::prelude::*;
use crate::event::HotkeyEvent;
use crate::hotkey::{Hotkey, Modifiers};
use crate::input::{Backend, PhysicalKey, Transition};
use crate::key::Key;

verus! {

/// The event that one table entry gives for a transition of `key`, if any.
/// A press needs the held modifiers to equal the entry's exactly. A release
/// needs the same with the device poller, and nothing with the hook. A
/// repeat gives nothing.
pub open spec fn entry_event(
    entry: Hotkey,
    index: usize,
    key: Key,
    transition: Transition,
    held: Modifiers,
    backend: Backend,
) -> Option<HotkeyEvent> {
    if entry.key != key {
        None
    } else {
        match transition {
            Transition::Press => if entry.modifiers == held {
                Some(HotkeyEvent::Pressed(index))
            } else {
                None
            },
            Transition::Release => if backend == Backend::OsHook || entry.modifiers == held {
                Some(HotkeyEvent::Released(index))
            } else {
                None
            },
            Transition::Repeat => None,
        }
    }
}

/// The events of a transition of `key`: those of the entries, in table order.
pub open spec fn matched(
    table: Seq<Hotkey>,
    key: Key,
    transition: Transition,
    held: Modifiers,
    backend: Backend,
) -> Seq<HotkeyEvent>
    decreases table.len(),
{
    if table.len() == 0 {
        Seq::<HotkeyEvent>::empty()
    } else {
        let before = matched(table.drop_last(), key, transition, held, backend);
        match entry_event(
            table.last(),
            (table.len() - 1) as usize,
            key,
            transition,
            held,
            backend,
        ) {
            Some(e) => before.push(e),
            None => before,
        }
    }
}

/// The events of a transition of any physical key: only a key that can be
/// registered gives events.
pub open spec fn matched_physical(
    table: Seq<Hotkey>,
    key: PhysicalKey,
    transition: Transition,
    held: Modifiers,
    backend: Backend,
) -> Seq<HotkeyEvent> {
    match key {
        PhysicalKey::Trigger(k) => matched(table, k, transition, held, backend),
        _ => Seq::<HotkeyEvent>::empty(),
    }
}

/// Scans the table once and returns the events of one transition, in table
/// order.
pub fn match_transition(
    table: &Vec<Hotkey>,
    key: PhysicalKey,
    transition: Transition,
    held: Modifiers,
    backend: Backend,
) -> (events: Vec<HotkeyEvent>)
    ensures
        events@ == matched_physical(table@, key, transition, held, backend),
{
    let mut events: Vec<HotkeyEvent> = Vec::new();
    let k = match key {
        PhysicalKey::Trigger(k) => k,
        _ => {
            return events;
        },
    };
    let n = table.len();
    let mut i: usize = 0;
    assert(table@.take(0) =~= Seq::<Hotkey>::empty());
    while i < n
        invariant
            n == table@.len(),
            i <= n,
            events@ == matched(table@.take(i as int), k, transition, held, backend),
        decreases n - i,
    {
        let entry = table[i];
        proof {
            assert(table@.take(i + 1).drop_last() =~= table@.take(i as int));
            assert(table@.take(i + 1).last() == entry);
        }
        if entry.key == k {
            let same = entry.modifiers == held;
            match transition {
                Transition::Press => {
                    if same {
                        events.push(HotkeyEvent::Pressed(i));
                    }
                },
                Transition::Release => {
                    if backend == Backend::OsHook || same {
                        events.push(HotkeyEvent::Released(i));
                    }
                },
                Transition::Repeat => {},
            }
        }
        i += 1;
    }
    assert(table@.take(n as int) =~= table@);
    events
}

/// An event is among those of a transition exactly when the entry at its
/// index gives it.
pub proof fn lemma_matched_contains(
    table: Seq<Hotkey>,
    key: Key,
    transition: Transition,
    held: Modifiers,
    backend: Backend,
    e: HotkeyEvent,
)
    requires
        table.len() <= usize::MAX,
    ensures
        matched(table, key, transition, held, backend).contains(e) <==> (e.index_spec()
            < table.len() && entry_event(
            table[e.index_spec() as int],
            e.index_spec(),
            key,
            transition,
            held,
            backend,
        ) == Some(e)),
    decreases table.len(),
{
    if table.len() > 0 {
        let init = table.drop_last();
        let before = matched(init, key, transition, held, backend);
        let last = entry_event(
            table.last(),
            (table.len() - 1) as usize,
            key,
            transition,
            held,
            backend,
        );
        lemma_matched_contains(init, key, transition, held, backend, e);
        if e.index_spec() < init.len() {
            assert(init[e.index_spec() as int] == table[e.index_spec() as int]);
        }
        match last {
            Some(l) => {
                assert(l.index_spec() == table.len() - 1);
                let all = before.push(l);
                if before.contains(e) {
                    let j = choose|j: int| 0 <= j < before.len() && before[j] == e;
                    assert(all[j] == e);
                }
                if e == l {
                    assert(all[before.len() as int] == e);
                }
                if all.contains(e) {
                    let j = choose|j: int| 0 <= j < all.len() && all[j] == e;
                    if j < before.len() {
                        assert(before[j] == e);
                    }
                }
            },
            None => {},
        }
    }
}

/// Whether the indices of the events strictly increase and stay below
/// `bound`.
pub open spec fn ascending(events: Seq<HotkeyEvent>, bound: int) -> bool {
    &&& forall|a: int|
        0 <= a < events.len() ==> (#[trigger] events[a]).index_spec() < bound
    &&& forall|a: int, b: int|
        0 <= a < b < events.len() ==> (#[trigger] events[a]).index_spec() < (
        #[trigger] events[b]).index_spec()
}

/// The events of one transition come in the order of the table: their
/// indices strictly increase, and each is the index of an entry.
pub proof fn lemma_matched_ascending(
    table: Seq<Hotkey>,
    key: Key,
    transition: Transition,
    held: Modifiers,
    backend: Backend,
)
    requires
        table.len() <= usize::MAX,
    ensures
        ascending(matched(table, key, transition, held, backend), table.len() as int),
    decreases table.len(),
{
    if table.len() > 0 {
        let before = matched(table.drop_last(), key, transition, held, backend);
        lemma_matched_ascending(table.drop_last(), key, transition, held, backend);
        let all = matched(table, key, transition, held, backend);
        assert forall|a: int| 0 <= a < all.len() implies (#[trigger] all[a]).index_spec()
            < table.len() by {
            if a < before.len() {
                assert(all[a] == before[a]);
            }
        }
        assert forall|a: int, b: int| 0 <= a < b < all.len() implies (#[trigger] all[a]).index_spec()
            < (#[trigger] all[b]).index_spec() by {
            assert(all[a] == before[a]);
            if b < before.len() {
                assert(all[b] == before[b]);
            }
        }
    }
}

/// Exact match on press: while the held modifiers equal those of the entry
/// at `i`, a press of its key gives `Pressed(i)`; while they differ in any
/// flag, the press gives no event for `i`.
pub proof fn lemma_press_needs_exact_modifiers(
    table: Seq<Hotkey>,
    i: usize,
    held: Modifiers,
    backend: Backend,
)
    requires
        i < table.len() <= usize::MAX,
    ensures
        held == table[i as int].modifiers ==> matched(
            table,
            table[i as int].key,
            Transition::Press,
            held,
            backend,
        ).contains(HotkeyEvent::Pressed(i)),
        held != table[i as int].modifiers ==> forall|e: HotkeyEvent|
            #[trigger] matched(table, table[i as int].key, Transition::Press, held, backend).contains(e)
                ==> e.index_spec() != i,
{
    let key = table[i as int].key;
    lemma_matched_contains(table, key, Transition::Press, held, backend, HotkeyEvent::Pressed(i));
    assert forall|e: HotkeyEvent|
        held != table[i as int].modifiers && #[trigger] matched(
            table,
            key,
            Transition::Press,
            held,
            backend,
        ).contains(e) implies e.index_spec() != i by {
        lemma_matched_contains(table, key, Transition::Press, held, backend, e);
    }
}

/// Every event of a transition carries the index of an entry that is
/// registered for the key: a press gives only `Pressed`, a release only
/// `Released`, and the index is the entry's position in the table.
pub proof fn lemma_events_carry_registered_indices(
    table: Seq<Hotkey>,
    key: Key,
    transition: Transition,
    held: Modifiers,
    backend: Backend,
)
    requires
        table.len() <= usize::MAX,
    ensures
        forall|e: HotkeyEvent|
            #[trigger] matched(table, key, transition, held, backend).contains(e) ==> {
                &&& e.index_spec() < table.len()
                &&& table[e.index_spec() as int].key == key
                &&& transition == Transition::Press ==> e == HotkeyEvent::Pressed(e.index_spec())
                &&& transition == Transition::Release ==> e == HotkeyEvent::Released(
                    e.index_spec(),
                )
                &&& transition != Transition::Repeat
            },
{
    assert forall|e: HotkeyEvent| #[trigger]
        matched(table, key, transition, held, backend).contains(e) implies {
        &&& e.index_spec() < table.len()
        &&& table[e.index_spec() as int].key == key
        &&& transition == Transition::Press ==> e == HotkeyEvent::Pressed(e.index_spec())
        &&& transition == Transition::Release ==> e == HotkeyEvent::Released(e.index_spec())
        &&& transition != Transition::Repeat
    } by {
        lemma_matched_contains(table, key, transition, held, backend, e);
    }
}

/// Index stability: where no entry but the one at `i` answers a transition,
/// every event of the transition carries the index `i` and no other.
pub proof fn lemma_index_stability(
    table: Seq<Hotkey>,
    key: Key,
    transition: Transition,
    held: Modifiers,
    backend: Backend,
    i: usize,
)
    requires
        table.len() <= usize::MAX,
        forall|j: int|
            0 <= j < table.len() && j != i ==> entry_event(
                #[trigger] table[j],
                j as usize,
                key,
                transition,
                held,
                backend,
            ) is None,
    ensures
        forall|e: HotkeyEvent|
            #[trigger] matched(table, key, transition, held, backend).contains(e) ==> (e
                == HotkeyEvent::Pressed(i) || e == HotkeyEvent::Released(i)),
{
    assert forall|e: HotkeyEvent| #[trigger]
        matched(table, key, transition, held, backend).contains(e) implies (e
        == HotkeyEvent::Pressed(i) || e == HotkeyEvent::Released(i)) by {
        lemma_matched_contains(table, key, transition, held, backend, e);
        if e.index_spec() != i {
            let j = e.index_spec() as int;
            assert(entry_event(table[j], j as usize, key, transition, held, backend) is None);
        }
    }
}

/// Where no entry but the one at `i` answers a transition, the events of
/// the transition are the answer of that entry alone.
pub proof fn lemma_matched_single(
    table: Seq<Hotkey>,
    key: Key,
    transition: Transition,
    held: Modifiers,
    backend: Backend,
    i: usize,
)
    requires
        table.len() <= usize::MAX,
        forall|j: int|
            0 <= j < table.len() && j != i ==> entry_event(
                #[trigger] table[j],
                j as usize,
                key,
                transition,
                held,
                backend,
            ) is None,
    ensures
        matched(table, key, transition, held, backend) == (if i < table.len() {
            match entry_event(table[i as int], i, key, transition, held, backend) {
                Some(e) => seq![e],
                None => Seq::<HotkeyEvent>::empty(),
            }
        } else {
            Seq::<HotkeyEvent>::empty()
        }),
    decreases table.len(),
{
    if table.len() > 0 {
        let init = table.drop_last();
        assert forall|j: int| 0 <= j < init.len() && j != i implies entry_event(
            #[trigger] init[j],
            j as usize,
            key,
            transition,
            held,
            backend,
        ) is None by {
            assert(init[j] == table[j]);
        }
        lemma_matched_single(init, key, transition, held, backend, i);
        let before = matched(init, key, transition, held, backend);
        let n = (table.len() - 1) as usize;
        if n == i {
            match entry_event(table[i as int], i, key, transition, held, backend) {
                Some(e) => {
                    assert(before.push(e) =~= seq![e]);
                },
                None => {},
            }
        } else {
            assert(entry_event(table[n as int], n, key, transition, held, backend) is None);
            if i < init.len() {
                assert(init[i as int] == table[i as int]);
            }
        }
    }
}

/// Autorepeat filtering: a repeat gives no event, whatever is registered
/// and whatever is held.
pub proof fn lemma_repeat_gives_nothing(
    table: Seq<Hotkey>,
    key: PhysicalKey,
    held: Modifiers,
    backend: Backend,
)
    ensures
        matched_physical(table, key, Transition::Repeat, held, backend) == Seq::<
            HotkeyEvent,
        >::empty(),
        held.after(key, Transition::Repeat) == held,
    decreases table.len(),
{
    match key {
        PhysicalKey::Trigger(k) => {
            lemma_repeat_of_key_gives_nothing(table, k, held, backend);
        },
        _ => {},
    }
}

proof fn lemma_repeat_of_key_gives_nothing(
    table: Seq<Hotkey>,
    key: Key,
    held: Modifiers,
    backend: Backend,
)
    ensures
        matched(table, key, Transition::Repeat, held, backend) == Seq::<HotkeyEvent>::empty(),
    decreases table.len(),
{
    if table.len() > 0 {
        lemma_repeat_of_key_gives_nothing(table.drop_last(), key, held, backend);
    }
}

/// The release policy of the hook: a release of a registered key gives
/// `Released(i)` for every entry of that key, whatever is held.
pub proof fn lemma_hook_release_is_unconditional(table: Seq<Hotkey>, i: usize, held: Modifiers)
    requires
        i < table.len() <= usize::MAX,
    ensures
        matched(table, table[i as int].key, Transition::Release, held, Backend::OsHook).contains(
            HotkeyEvent::Released(i),
        ),
{
    lemma_matched_contains(
        table,
        table[i as int].key,
        Transition::Release,
        held,
        Backend::OsHook,
        HotkeyEvent::Released(i),
    );
}

/// The release policy of the device poller: a release of a registered key
/// gives `Released(i)` exactly when the held modifiers equal the entry's.
pub proof fn lemma_poller_release_is_strict(table: Seq<Hotkey>, i: usize, held: Modifiers)
    requires
        i < table.len() <= usize::MAX,
    ensures
        matched(
            table,
            table[i as int].key,
            Transition::Release,
            held,
            Backend::DevicePoller,
        ).contains(HotkeyEvent::Released(i)) <==> held == table[i as int].modifiers,
{
    lemma_matched_contains(
        table,
        table[i as int].key,
        Transition::Release,
        held,
        Backend::DevicePoller,
        HotkeyEvent::Released(i),
    );
}

} // verus!
