//! Properties that relate several operations, proved over their contracts.
use vstd::prelude::*;

use crate::handle::HandleView;
use crate::lifetime::LifetimeView;
use crate::manager::{reaped, without_sessions, EntryManager};
use crate::shelf::{holds_path, lookup};

verus! {

/// Once entry `appid` has been registered under `l`, registering `appid`
/// again under any lifetime `l2` stored in the same root collides, whatever
/// the disk probe reports: the second call fails with a path collision and
/// leaves everything as it was.
pub proof fn lemma_entry_registered_collides(
    before: EntryManager,
    after: EntryManager,
    appid: Seq<char>,
    l: LifetimeView,
    l2: LifetimeView,
    taken: bool,
)
    requires
        EntryManager::entry_registered(&before, &after, appid, l),
        l.is_persistent() == l2.is_persistent(),
    ensures
        after.entry_collides(appid, l2, taken),
        after.entry_destination(appid, l2) == before.entry_destination(appid, l),
{
    let m = after.cache@.entries;
    let dest = before.entry_destination(appid, l);
    let j = m[l].len() - 1;
    assert(m.dom().contains(l) && 0 <= j < m[l].len() && m[l][j].1 == dest);
    assert(holds_path(m, dest));
}

/// Removing lifetime `l` leaves the entries and icons of every other
/// lifetime as they were.
pub proof fn lemma_lifetime_isolation(
    entries: Map<LifetimeView, Seq<HandleView>>,
    icons: Map<LifetimeView, Seq<HandleView>>,
    l: LifetimeView,
    other: LifetimeView,
)
    requires
        l != other,
    ensures
        lookup(entries.remove(l), other) == lookup(entries, other),
        lookup(icons.remove(l), other) == lookup(icons, other),
        !entries.remove(l).dom().contains(l),
        !icons.remove(l).dom().contains(l),
{
}

/// Dropping the session lifetimes keeps every other lifetime unchanged, and
/// doing it a second time changes nothing.
pub proof fn lemma_session_reset(m: Map<LifetimeView, Seq<HandleView>>, k: LifetimeView)
    ensures
        !(k is Session) ==> lookup(without_sessions(m), k) == lookup(m, k),
        k is Session ==> !without_sessions(m).dom().contains(k),
        without_sessions(without_sessions(m)) == without_sessions(m),
{
    assert(without_sessions(without_sessions(m)) =~= without_sessions(m));
}

/// A reconciliation round removes exactly the lifetimes of processes
/// reported dead, and leaves every other lifetime as it was.
pub proof fn lemma_reconcile_isolation(
    m: Map<LifetimeView, Seq<HandleView>>,
    pids: Seq<u32>,
    alive: Seq<bool>,
    k: LifetimeView,
)
    ensures
        !reaped(pids, alive, k) ==> lookup(
            m.restrict(Set::new(|x: LifetimeView| !reaped(pids, alive, x))),
            k,
        ) == lookup(m, k),
        reaped(pids, alive, k) ==> !m.restrict(
            Set::new(|x: LifetimeView| !reaped(pids, alive, x)),
        ).dom().contains(k),
{
}

} // verus!
