use vstd::prelude::*;

use crate::handle::{DesktopHandle, HandleView, IconHandle};
use crate::lifetime::{Lifetime, LifetimeView};
use crate::shelf::{
    add_handle, handles_view, held_under, keys_unique, map_of, remove_key, shelf_holds_path,
    shelf_view, sweep, with_handle, Sweep,
};

verus! {

/// The catalog in spec terms: for each lifetime, its handles in the order
/// they were registered.
pub struct CatalogView {
    pub entries: Map<LifetimeView, Seq<HandleView>>,
    pub icons: Map<LifetimeView, Seq<HandleView>>,
}

/// The index of registered entries and icons, by lifetime. It is what the
/// snapshot file holds.
#[derive(Debug)]
pub struct EntryCache {
    pub entries: Vec<(Lifetime, Vec<DesktopHandle>)>,
    pub icons: Vec<(Lifetime, Vec<IconHandle>)>,
}

/// What a removal took out of the catalog: the files to delete, and whether
/// the catalog changed (and so must be saved again).
#[derive(Debug)]
pub struct Removal {
    pub entries: Vec<DesktopHandle>,
    pub icons: Vec<IconHandle>,
    pub changed: bool,
}

impl View for EntryCache {
    type V = CatalogView;

    open spec fn view(&self) -> CatalogView {
        CatalogView {
            entries: map_of(shelf_view(self.entries@)),
            icons: map_of(shelf_view(self.icons@)),
        }
    }
}

/// Whether the two lists of a snapshot make a catalog: no lifetime twice in either.
pub open spec fn snapshot_accepted(
    entries: Seq<(Lifetime, Vec<DesktopHandle>)>,
    icons: Seq<(Lifetime, Vec<IconHandle>)>,
) -> bool {
    keys_unique(shelf_view(entries)) && keys_unique(shelf_view(icons))
}

impl EntryCache {
    pub open spec fn wf(&self) -> bool {
        snapshot_accepted(self.entries@, self.icons@)
    }

    /// Whether `l` has anything in the catalog.
    pub open spec fn has_lifetime(self, l: LifetimeView) -> bool {
        self@.entries.dom().contains(l) || self@.icons.dom().contains(l)
    }

    /// The empty catalog.
    pub fn empty() -> (r: Self)
        ensures
            r.wf(),
            r@.entries == Map::<LifetimeView, Seq<HandleView>>::empty(),
            r@.icons == Map::<LifetimeView, Seq<HandleView>>::empty(),
    {
        let r = EntryCache { entries: Vec::new(), icons: Vec::new() };
        assert(shelf_view(r.entries@) =~= Seq::empty());
        assert(shelf_view(r.icons@) =~= Seq::empty());
        r
    }

    /// Rebuilds a catalog from the two lists of a snapshot; `None` when a
    /// lifetime occurs twice in one of them.
    pub fn from_parts(
        entries: Vec<(Lifetime, Vec<DesktopHandle>)>,
        icons: Vec<(Lifetime, Vec<IconHandle>)>,
    ) -> (r: Option<Self>)
        ensures
            r is Some <==> snapshot_accepted(entries@, icons@),
            r matches Some(c) ==> c.entries@ == entries@ && c.icons@ == icons@ && c.wf(),
    {
        if unique_keys(&entries) && unique_keys(&icons) {
            Some(EntryCache { entries, icons })
        } else {
            None
        }
    }

    /// Appends an entry handle under `l`.
    pub fn add_entry(&mut self, l: Lifetime, h: DesktopHandle)
        requires
            old(self).wf(),
        ensures
            final(self).wf(),
            final(self)@.entries == with_handle(old(self)@.entries, l@, h@),
            final(self)@.icons == old(self)@.icons,
    {
        add_handle(&mut self.entries, l, h);
    }

    /// Appends an icon handle under `l`.
    pub fn add_icon(&mut self, l: Lifetime, h: IconHandle)
        requires
            old(self).wf(),
        ensures
            final(self).wf(),
            final(self)@.icons == with_handle(old(self)@.icons, l@, h@),
            final(self)@.entries == old(self)@.entries,
    {
        add_handle(&mut self.icons, l, h);
    }

    /// Whether an entry handle points at `p`.
    pub fn entry_at(&self, p: &String) -> (r: bool)
        requires
            self.wf(),
        ensures
            r == crate::shelf::holds_path(self@.entries, p@),
    {
        shelf_holds_path(&self.entries, p)
    }

    /// Whether an icon handle points at `p`.
    pub fn icon_at(&self, p: &String) -> (r: bool)
        requires
            self.wf(),
        ensures
            r == crate::shelf::holds_path(self@.icons, p@),
    {
        shelf_holds_path(&self.icons, p)
    }

    /// Takes `l` out of both maps and hands back what was stored under it.
    pub fn remove(&mut self, l: &Lifetime) -> (r: Removal)
        requires
            old(self).wf(),
        ensures
            final(self).wf(),
            final(self)@.entries == old(self)@.entries.remove(l@),
            final(self)@.icons == old(self)@.icons.remove(l@),
            handles_view(r.entries@) == crate::shelf::lookup(old(self)@.entries, l@),
            handles_view(r.icons@) == crate::shelf::lookup(old(self)@.icons, l@),
            r.changed == old(self).has_lifetime(l@),
    {
        let e = remove_key(&mut self.entries, l);
        let i = remove_key(&mut self.icons, l);
        let changed = e.is_some() || i.is_some();
        let entries = match e {
            Some(v) => v,
            None => {
                let v: Vec<DesktopHandle> = Vec::new();
                assert(handles_view(v@) =~= Seq::empty());
                v
            },
        };
        let icons = match i {
            Some(v) => v,
            None => {
                let v: Vec<IconHandle> = Vec::new();
                assert(handles_view(v@) =~= Seq::empty());
                v
            },
        };
        Removal { entries, icons, changed }
    }

    /// Takes every lifetime that `sel` picks out of both maps.
    pub fn sweep(&mut self, sel: &Sweep) -> (r: Removal)
        requires
            old(self).wf(),
        ensures
            final(self).wf(),
            final(self)@.entries == old(self)@.entries.restrict(
                Set::new(|k: LifetimeView| !sel.picks(k)),
            ),
            final(self)@.icons == old(self)@.icons.restrict(
                Set::new(|k: LifetimeView| !sel.picks(k)),
            ),
            forall|h: HandleView|
                handles_view(r.entries@).contains(h) <==> held_under(old(self)@.entries, sel, h),
            forall|h: HandleView|
                handles_view(r.icons@).contains(h) <==> held_under(old(self)@.icons, sel, h),
            r.changed <==> exists|k: LifetimeView| #[trigger]
                old(self).has_lifetime(k) && sel.picks(k),
    {
        let ne = self.entries.len();
        let ni = self.icons.len();
        let entries = sweep(&mut self.entries, sel);
        let icons = sweep(&mut self.icons, sel);
        let changed = self.entries.len() < ne || self.icons.len() < ni;
        proof {
            if changed {
                if self.entries@.len() < ne {
                    let k = choose|k: LifetimeView| #[trigger]
                        map_of(shelf_view(old(self).entries@)).dom().contains(k) && sel.picks(k);
                    assert(old(self).has_lifetime(k));
                } else {
                    let k = choose|k: LifetimeView| #[trigger]
                        map_of(shelf_view(old(self).icons@)).dom().contains(k) && sel.picks(k);
                    assert(old(self).has_lifetime(k));
                }
            }
        }
        Removal { entries, icons, changed }
    }
}

/// Whether no lifetime occurs twice in `s`.
fn unique_keys<H: View<V = HandleView>>(s: &Vec<(Lifetime, Vec<H>)>) -> (r: bool)
    ensures
        r == keys_unique(shelf_view(s@)),
{
    let ghost sv = shelf_view(s@);
    let mut j: usize = 0;
    while j < s.len()
        invariant
            j <= s@.len(),
            sv == shelf_view(s@),
            forall|a: int, b: int| #![trigger sv[a], sv[b]] 0 <= a < b < j ==> sv[a].0 != sv[b].0,
        decreases s.len() - j,
    {
        let mut i: usize = 0;
        while i < j
            invariant
                i <= j < s@.len(),
                sv == shelf_view(s@),
                forall|a: int| 0 <= a < i ==> #[trigger] sv[a].0 != sv[j as int].0,
            decreases j - i,
        {
            if s[i].0.eq(&s[j].0) {
                assert(sv[i as int].0 == sv[j as int].0);
                return false;
            }
            i += 1;
        }
        j += 1;
    }
    true
}

} // verus!
