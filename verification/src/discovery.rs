//! Device discovery: which device nodes are looked at, which of the opened
//! devices count as keyboards, and when discovery fails.

use vstd::prelude::*;
use vstd::string::*;
use crate::text::str_eq;

verus! {

/// Why no device set could be had.
#[derive(Debug, Clone, Copy, PartialEq, Eq, Structural)]
pub enum DiscoveryError {
    /// No device passed the keyboard probe: none is connected, or the
    /// process may not read the device nodes.
    NoKeyboards,
}

/// Whether a file name starts with `event`, as the nodes of input devices do.
pub open spec fn is_event_node_spec(name: Seq<char>) -> bool {
    name.len() >= 5 && name.subrange(0, 5) == "event"@
}

/// Whether a file name is that of an input device node.
pub fn is_event_node(name: &str) -> (r: bool)
    ensures
        r == is_event_node_spec(name@),
{
    if name.unicode_len() < 5 {
        return false;
    }
    str_eq(name.substring_char(0, 5), "event")
}

/// The positions of the devices that passed the probe, in order.
pub open spec fn kept(probes: Seq<bool>) -> Seq<usize>
    decreases probes.len(),
{
    if probes.len() == 0 {
        Seq::<usize>::empty()
    } else if probes.last() {
        kept(probes.drop_last()).push((probes.len() - 1) as usize)
    } else {
        kept(probes.drop_last())
    }
}

/// Chooses the keyboards among the opened devices. `probes[i]` says whether
/// device `i` reports the representative alphabetic key among the keys it
/// supports. The result holds the positions of the devices to keep, in
/// order; discovery fails exactly when there is none.
pub fn select_keyboards(probes: &Vec<bool>) -> (r: Result<Vec<usize>, DiscoveryError>)
    ensures
        match r {
            Ok(keep) => keep@ == kept(probes@) && keep@.len() > 0,
            Err(e) => e == DiscoveryError::NoKeyboards && kept(probes@).len() == 0,
        },
{
    let mut keep: Vec<usize> = Vec::new();
    let n = probes.len();
    let mut i: usize = 0;
    assert(probes@.take(0) =~= Seq::<bool>::empty());
    while i < n
        invariant
            n == probes@.len(),
            i <= n,
            keep@ == kept(probes@.take(i as int)),
        decreases n - i,
    {
        proof {
            assert(probes@.take(i + 1).drop_last() =~= probes@.take(i as int));
            assert(probes@.take(i + 1).last() == probes@[i as int]);
        }
        if probes[i] {
            keep.push(i);
        }
        i += 1;
    }
    assert(probes@.take(n as int) =~= probes@);
    if keep.len() == 0 {
        Err(DiscoveryError::NoKeyboards)
    } else {
        Ok(keep)
    }
}

/// A device is kept exactly when it passed the probe.
pub proof fn lemma_kept_are_the_probed(probes: Seq<bool>, i: usize)
    requires
        probes.len() <= usize::MAX,
    ensures
        kept(probes).contains(i) <==> (i < probes.len() && probes[i as int]),
    decreases probes.len(),
{
    if probes.len() > 0 {
        let init = probes.drop_last();
        lemma_kept_are_the_probed(init, i);
        let before = kept(init);
        if i < init.len() {
            assert(init[i as int] == probes[i as int]);
        }
        if probes.last() {
            let all = before.push((probes.len() - 1) as usize);
            if before.contains(i) {
                let j = choose|j: int| 0 <= j < before.len() && before[j] == i;
                assert(all[j] == i);
            }
            if i == probes.len() - 1 {
                assert(all[before.len() as int] == i);
            }
            if all.contains(i) {
                let j = choose|j: int| 0 <= j < all.len() && all[j] == i;
                if j < before.len() {
                    assert(before[j] == i);
                }
            }
        }
    }
}

} // verus!
