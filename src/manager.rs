//! The lifetime manager: every registration and removal goes through here.
use vstd::prelude::*;

use crate::catalog::{EntryCache, Removal};
use crate::handle::{DesktopHandle, HandleView, IconHandle};
use crate::icon::{IconPayload, IconValidationError};
use crate::lifetime::{Lifetime, LifetimeView};
use crate::placement::{
    entry_file_name, entry_leaf, join, join_path, raster_icon_leaf, raster_leaf,
    scalable_icon_leaf, scalable_leaf,
};
use crate::shelf::{
    collect_pids, handles_view, held_under, holds_path, lookup, push_unique, with_handle, Sweep,
};
use crate::validation::{has_keyless_line, validate_desktop_entry, ValidationError};

verus! {

/// Why a request to the manager failed.
#[derive(Debug)]
pub enum EntryManagerError {
    /// A file could not be read, written or deleted.
    IO(String),
    EntryValidation(ValidationError),
    IconValidation(IconValidationError),
    /// Something is already stored at this path.
    PathCollision(String),
    /// The catalog snapshot could not be encoded or decoded.
    Ron(String),
}

/// What is written to a stored file.
#[derive(Debug)]
pub enum Contents {
    Text(String),
    Bytes(Vec<u8>),
}

/// A file that a successful registration leaves to write.
#[derive(Debug)]
pub struct PendingFile {
    pub path: String,
    pub contents: Contents,
}

/// The catalog with the directories it stores into, and the processes that
/// refresh the desktop's caches themselves.
#[derive(Debug)]
pub struct EntryManager {
    pub cache: EntryCache,
    pub temp_entry_dir: String,
    pub temp_icon_dir: String,
    pub persistent_entry_dir: String,
    pub persistent_icon_dir: String,
    pub config_file: String,
    pub change_handlers: Vec<u32>,
}

/// Whether the oracle's answers name `p` as a process that has exited.
pub open spec fn reported_dead(pids: Seq<u32>, alive: Seq<bool>, p: u32) -> bool {
    exists|i: int| 0 <= i < pids.len() && i < alive.len() && pids[i] == p && !alive[i]
}

/// Whether the reconciler takes `k` away, given the oracle's answers.
pub open spec fn reaped(pids: Seq<u32>, alive: Seq<bool>, k: LifetimeView) -> bool {
    k matches LifetimeView::Process(p) && reported_dead(pids, alive, p)
}

/// Whether `h` is stored in `m` under a key that the reconciler takes away.
pub open spec fn reaped_handle(
    m: Map<LifetimeView, Seq<HandleView>>,
    pids: Seq<u32>,
    alive: Seq<bool>,
    h: HandleView,
) -> bool {
    exists|k: LifetimeView| #[trigger]
        m.dom().contains(k) && reaped(pids, alive, k) && m[k].contains(h)
}

/// Whether `h` is stored in `m` under a session lifetime.
pub open spec fn session_handle(m: Map<LifetimeView, Seq<HandleView>>, h: HandleView) -> bool {
    exists|k: LifetimeView| #[trigger] m.dom().contains(k) && k is Session && m[k].contains(h)
}

/// `m` without its session lifetimes.
pub open spec fn without_sessions(m: Map<LifetimeView, Seq<HandleView>>) -> Map<
    LifetimeView,
    Seq<HandleView>,
> {
    m.restrict(Set::new(|k: LifetimeView| !(k is Session)))
}

impl EntryManager {
    pub open spec fn wf(&self) -> bool {
        self.cache.wf() && self.change_handlers@.no_duplicates()
    }

    /// Whether the two managers differ at most in their catalogs.
    pub open spec fn same_setup(&self, other: &EntryManager) -> bool {
        &&& self.temp_entry_dir == other.temp_entry_dir
        &&& self.temp_icon_dir == other.temp_icon_dir
        &&& self.persistent_entry_dir == other.persistent_entry_dir
        &&& self.persistent_icon_dir == other.persistent_icon_dir
        &&& self.config_file == other.config_file
        &&& self.change_handlers == other.change_handlers
    }

    /// The directory that entries of lifetime `l` are stored in.
    pub open spec fn entry_dir(&self, l: LifetimeView) -> Seq<char> {
        if l.is_persistent() {
            self.persistent_entry_dir@
        } else {
            self.temp_entry_dir@
        }
    }

    /// The directory that icons of lifetime `l` are stored in.
    pub open spec fn icon_dir(&self, l: LifetimeView) -> Seq<char> {
        if l.is_persistent() {
            self.persistent_icon_dir@
        } else {
            self.temp_icon_dir@
        }
    }

    pub open spec fn entry_destination(&self, appid: Seq<char>, l: LifetimeView) -> Seq<char> {
        join_path(self.entry_dir(l), entry_leaf(appid))
    }

    /// Where an icon of this payload is stored.
    pub open spec fn icon_destination(
        &self,
        name: Seq<char>,
        icon: IconPayload,
        l: LifetimeView,
    ) -> Seq<char> {
        join_path(
            self.icon_dir(l),
            match icon {
                IconPayload::Raster { side, .. } => raster_leaf(side as nat, name),
                IconPayload::Scalable { .. } => scalable_leaf(name),
            },
        )
    }

    /// Whether registering entry `appid` under `l` collides: the disk already
    /// holds a file there, or the catalog points there.
    pub open spec fn entry_collides(&self, appid: Seq<char>, l: LifetimeView, taken: bool) -> bool {
        taken || holds_path(self.cache@.entries, self.entry_destination(appid, l))
    }

    pub open spec fn icon_collides(
        &self,
        name: Seq<char>,
        icon: IconPayload,
        l: LifetimeView,
        taken: bool,
    ) -> bool {
        taken || holds_path(self.cache@.icons, self.icon_destination(name, icon, l))
    }

    /// `after` is `before` with entry `appid` registered under `l`.
    pub open spec fn entry_registered(
        before: &EntryManager,
        after: &EntryManager,
        appid: Seq<char>,
        l: LifetimeView,
    ) -> bool {
        &&& after.same_setup(before)
        &&& after.cache@.icons == before.cache@.icons
        &&& after.cache@.entries == with_handle(
            before.cache@.entries,
            l,
            (appid, before.entry_destination(appid, l)),
        )
    }

    /// Sets up a manager over the two storage roots and the snapshot path.
    /// `loaded` is the catalog read from the snapshot, if it could be read.
    /// Session lifetimes do not outlive the daemon: they are removed at once,
    /// and the removal says which files to delete.
    pub fn new(
        tmp_dir: String,
        persistent_dir: String,
        config_file: String,
        loaded: Option<EntryCache>,
    ) -> (r: (Self, Removal))
        requires
            loaded matches Some(c) ==> c.wf(),
        ensures
            r.0.wf(),
            r.0.temp_entry_dir@ == join_path(tmp_dir@, "applications"@),
            r.0.temp_icon_dir@ == join_path(tmp_dir@, "icons"@),
            r.0.persistent_entry_dir@ == join_path(persistent_dir@, "applications"@),
            r.0.persistent_icon_dir@ == join_path(persistent_dir@, "icons"@),
            r.0.config_file@ == config_file@,
            r.0.change_handlers@.len() == 0,
            match loaded {
                Some(c) => {
                    &&& r.0.cache@.entries == without_sessions(c@.entries)
                    &&& r.0.cache@.icons == without_sessions(c@.icons)
                    &&& forall|h: HandleView|
                        handles_view(r.1.entries@).contains(h) <==> session_handle(c@.entries, h)
                    &&& forall|h: HandleView|
                        handles_view(r.1.icons@).contains(h) <==> session_handle(c@.icons, h)
                },
                None => {
                    &&& r.0.cache@.entries.dom().is_empty()
                    &&& r.0.cache@.icons.dom().is_empty()
                    &&& r.1.entries@.len() == 0
                    &&& r.1.icons@.len() == 0
                },
            },
    {
        let cache = match loaded {
            Some(c) => c,
            None => EntryCache::empty(),
        };
        let mut manager = EntryManager {
            cache,
            temp_entry_dir: join(tmp_dir.as_str(), "applications"),
            temp_icon_dir: join(tmp_dir.as_str(), "icons"),
            persistent_entry_dir: join(persistent_dir.as_str(), "applications"),
            persistent_icon_dir: join(persistent_dir.as_str(), "icons"),
            config_file,
            change_handlers: Vec::new(),
        };
        let ghost before = manager.cache@;
        let removal = manager.reset_session();
        proof {
            if loaded is None {
                assert(manager.cache@.entries =~= Map::empty());
                assert(manager.cache@.icons =~= Map::empty());
                if removal.entries@.len() > 0 {
                    assert(handles_view(removal.entries@).contains(handles_view(removal.entries@)[0]));
                }
                if removal.icons@.len() > 0 {
                    assert(handles_view(removal.icons@).contains(handles_view(removal.icons@)[0]));
                }
            }
        }
        (manager, removal)
    }

    /// Takes every session lifetime out of the catalog.
    pub fn reset_session(&mut self) -> (r: Removal)
        requires
            old(self).wf(),
        ensures
            final(self).wf(),
            final(self).same_setup(old(self)),
            final(self).cache@.entries == without_sessions(old(self).cache@.entries),
            final(self).cache@.icons == without_sessions(old(self).cache@.icons),
            forall|h: HandleView|
                handles_view(r.entries@).contains(h) <==> session_handle(old(self).cache@.entries, h),
            forall|h: HandleView|
                handles_view(r.icons@).contains(h) <==> session_handle(old(self).cache@.icons, h),
            r.changed <==> exists|k: LifetimeView| #[trigger]
                old(self).cache.has_lifetime(k) && k is Session,
    {
        let sel = Sweep::Sessions;
        let r = self.cache.sweep(&sel);
        proof {
            assert(Set::new(|k: LifetimeView| !sel.picks(k)) =~= Set::new(
                |k: LifetimeView| !(k is Session),
            ));
            assert forall|h: HandleView|
                crate::shelf::held_under(old(self).cache@.entries, &sel, h) == session_handle(
                    old(self).cache@.entries,
                    h,
                ) by {}
            assert forall|h: HandleView|
                crate::shelf::held_under(old(self).cache@.icons, &sel, h) == session_handle(
                    old(self).cache@.icons,
                    h,
                ) by {}
            if r.changed {
                let k = choose|k: LifetimeView| #[trigger]
                    old(self).cache.has_lifetime(k) && sel.picks(k);
                assert(old(self).cache.has_lifetime(k) && k is Session);
            }
        }
        r
    }

    /// Where entry `appid` of lifetime `lifetime` is stored.
    pub fn entry_destination_of(&self, appid: &str, lifetime: &Lifetime) -> (r: String)
        ensures
            r@ == self.entry_destination(appid@, lifetime@),
    {
        let leaf = entry_file_name(appid);
        if lifetime.is_persistent() {
            join(self.persistent_entry_dir.as_str(), leaf.as_str())
        } else {
            join(self.temp_entry_dir.as_str(), leaf.as_str())
        }
    }

    /// Where an icon named `icon_name` with this payload and lifetime is stored.
    pub fn icon_destination_of(&self, icon_name: &str, icon: &IconPayload, lifetime: &Lifetime) -> (r:
        String)
        ensures
            r@ == self.icon_destination(icon_name@, *icon, lifetime@),
    {
        let leaf = match icon {
            IconPayload::Raster { side, .. } => raster_icon_leaf(*side, icon_name),
            IconPayload::Scalable { .. } => scalable_icon_leaf(icon_name),
        };
        if lifetime.is_persistent() {
            join(self.persistent_icon_dir.as_str(), leaf.as_str())
        } else {
            join(self.temp_icon_dir.as_str(), leaf.as_str())
        }
    }

    /// Registers desktop entry `entry` as `appid` under `lifetime`.
    /// `listed_elsewhere` tells whether the desktop already has an entry with
    /// this id outside the catalog; `destination_taken` whether a file
    /// already stands at the destination. On success the entry is in the
    /// catalog and the file to write comes back; on failure nothing changes.
    pub fn register_entry(
        &mut self,
        entry: &str,
        appid: &str,
        lifetime: Lifetime,
        listed_elsewhere: bool,
        destination_taken: bool,
    ) -> (r: Result<PendingFile, EntryManagerError>)
        requires
            old(self).wf(),
        ensures
            final(self).wf(),
            r is Ok <==> !has_keyless_line(entry@) && !listed_elsewhere && !old(self).entry_collides(
                appid@,
                lifetime@,
                destination_taken,
            ),
            r matches Err(EntryManagerError::EntryValidation(ValidationError::NotValid(_)))
                <==> has_keyless_line(entry@),
            r matches Err(EntryManagerError::EntryValidation(ValidationError::DuplicateAppID))
                <==> !has_keyless_line(entry@) && listed_elsewhere,
            r matches Err(EntryManagerError::PathCollision(_)) <==> !has_keyless_line(entry@)
                && !listed_elsewhere && old(self).entry_collides(
                appid@,
                lifetime@,
                destination_taken,
            ),
            r matches Err(EntryManagerError::PathCollision(p)) ==> p@ == old(self).entry_destination(appid@, lifetime@),
            r is Err ==> *final(self) == *old(self),
            r matches Ok(f) ==> {
                &&& f.path@ == old(self).entry_destination(appid@, lifetime@)
                &&& (f.contents matches Contents::Text(t) && t@ == entry@)
                &&& EntryManager::entry_registered(old(self), final(self), appid@, lifetime@)
            },
    {
        let text = match validate_desktop_entry(entry, appid, listed_elsewhere) {
            Ok(t) => t,
            Err(e) => return Err(EntryManagerError::EntryValidation(e)),
        };
        let path = self.entry_destination_of(appid, &lifetime);
        if destination_taken || self.cache.entry_at(&path) {
            return Err(EntryManagerError::PathCollision(path));
        }
        let handle = DesktopHandle { appid: String::from_str(appid), path: path.clone() };
        self.cache.add_entry(lifetime, handle);
        Ok(PendingFile { path, contents: Contents::Text(text) })
    }

    /// Registers an icon named `icon_name`, classified beforehand into
    /// `icon`, under `lifetime`. `destination_taken` tells whether a file
    /// already stands at the destination. On success the icon is in the
    /// catalog and the file to write comes back; on failure nothing changes.
    pub fn register_icon(
        &mut self,
        icon_name: &str,
        icon: IconPayload,
        lifetime: Lifetime,
        destination_taken: bool,
    ) -> (r: Result<PendingFile, EntryManagerError>)
        requires
            old(self).wf(),
        ensures
            final(self).wf(),
            r is Ok <==> !old(self).icon_collides(icon_name@, icon, lifetime@, destination_taken),
            r is Err ==> (r matches Err(EntryManagerError::PathCollision(p)) && p@ == old(self).icon_destination(icon_name@, icon, lifetime@)),
            r is Err ==> *final(self) == *old(self),
            r matches Ok(f) ==> {
                let dest = old(self).icon_destination(icon_name@, icon, lifetime@);
                &&& f.path@ == dest
                &&& match icon {
                    IconPayload::Raster { png, .. } => (f.contents matches Contents::Bytes(b)
                        && b@ == png@),
                    IconPayload::Scalable { text } => (f.contents matches Contents::Text(t) && t@
                        == text@),
                }
                &&& final(self).same_setup(old(self))
                &&& final(self).cache@.entries == old(self).cache@.entries
                &&& final(self).cache@.icons == with_handle(
                    old(self).cache@.icons,
                    lifetime@,
                    (icon_name@, dest),
                )
            },
    {
        let path = self.icon_destination_of(icon_name, &icon, &lifetime);
        if destination_taken || self.cache.icon_at(&path) {
            return Err(EntryManagerError::PathCollision(path));
        }
        let handle = IconHandle { icon_name: String::from_str(icon_name), icon_path: path.clone() };
        self.cache.add_icon(lifetime, handle);
        let contents = match icon {
            IconPayload::Raster { png, .. } => Contents::Bytes(png),
            IconPayload::Scalable { text } => Contents::Text(text),
        };
        Ok(PendingFile { path, contents })
    }

    /// Takes `lifetime` out of the catalog. The removal holds the handles
    /// whose files are to be deleted, and says whether the catalog changed.
    pub fn remove_lifetime(&mut self, lifetime: Lifetime) -> (r: Removal)
        requires
            old(self).wf(),
        ensures
            final(self).wf(),
            final(self).same_setup(old(self)),
            final(self).cache@.entries == old(self).cache@.entries.remove(lifetime@),
            final(self).cache@.icons == old(self).cache@.icons.remove(lifetime@),
            handles_view(r.entries@) == lookup(old(self).cache@.entries, lifetime@),
            handles_view(r.icons@) == lookup(old(self).cache@.icons, lifetime@),
            r.changed == old(self).cache.has_lifetime(lifetime@),
    {
        self.cache.remove(&lifetime)
    }

    /// Opts process `pid` out of the desktop refresh that follows each
    /// registration: it refreshes by itself.
    pub fn register_change_handler(&mut self, pid: u32)
        requires
            old(self).wf(),
        ensures
            final(self).wf(),
            final(self).cache == old(self).cache,
            forall|p: u32|
                final(self).change_handlers@.contains(p) <==> old(self).change_handlers@.contains(p)
                    || p == pid,
    {
        if !contains_u32(&self.change_handlers, pid) {
            self.change_handlers.push(pid);
            proof {
                assert forall|p: u32|
                    final(self).change_handlers@.contains(p) implies old(self).change_handlers@.contains(p) || p == pid by {
                    let i = choose|i: int|
                        0 <= i < final(self).change_handlers@.len()
                            && final(self).change_handlers@[i] == p;
                    if i < old(self).change_handlers@.len() {
                        assert(old(self).change_handlers@[i] == p);
                    }
                }
                assert(final(self).change_handlers@[old(self).change_handlers@.len() as int]
                    == pid);
                assert forall|p: u32| old(self).change_handlers@.contains(p) implies final(self).change_handlers@.contains(p) by {
                    let i = choose|i: int|
                        0 <= i < old(self).change_handlers@.len()
                            && old(self).change_handlers@[i] == p;
                    assert(final(self).change_handlers@[i] == p);
                }
            }
        }
    }

    /// Whether the desktop's caches are to be refreshed after a change:
    /// only when no process has taken that on itself.
    pub fn refresh_wanted(&self) -> (r: bool)
        ensures
            r == (self.change_handlers@.len() == 0),
    {
        self.change_handlers.len() == 0
    }
    /// The processes the reconciler asks about: every process that owns a
    /// lifetime in the catalog, and every change handler. Each comes once.
    pub fn watched_pids(&self) -> (r: Vec<u32>)
        ensures
            r@.no_duplicates(),
            forall|p: u32|
                r@.contains(p) <==> self.cache.has_lifetime(LifetimeView::Process(p))
                    || self.change_handlers@.contains(p),
    {
        let mut out: Vec<u32> = Vec::new();
        collect_pids(&self.cache.entries, &mut out);
        collect_pids(&self.cache.icons, &mut out);
        let mut i: usize = 0;
        while i < self.change_handlers.len()
            invariant
                i <= self.change_handlers@.len(),
                out@.no_duplicates(),
                forall|p: u32|
                    out@.contains(p) <==> self.cache.has_lifetime(LifetimeView::Process(p))
                        || exists|j: int| 0 <= j < i && self.change_handlers@[j] == p,
            decreases self.change_handlers.len() - i,
        {
            push_unique(&mut out, self.change_handlers[i]);
            i += 1;
        }
        out
    }

    /// One round of the reconciler. `alive[i]` is the liveness oracle's
    /// answer for process `pids[i]`. Every lifetime of a process reported
    /// dead leaves the catalog, and so does its change handler; nothing else
    /// changes. The removal holds the handles whose files are to be deleted.
    pub fn reconcile(&mut self, pids: &Vec<u32>, alive: &Vec<bool>) -> (r: Removal)
        requires
            old(self).wf(),
        ensures
            final(self).wf(),
            final(self).temp_entry_dir == old(self).temp_entry_dir,
            final(self).temp_icon_dir == old(self).temp_icon_dir,
            final(self).persistent_entry_dir == old(self).persistent_entry_dir,
            final(self).persistent_icon_dir == old(self).persistent_icon_dir,
            final(self).config_file == old(self).config_file,
            final(self).cache@.entries == old(self).cache@.entries.restrict(
                Set::new(|k: LifetimeView| !reaped(pids@, alive@, k)),
            ),
            final(self).cache@.icons == old(self).cache@.icons.restrict(
                Set::new(|k: LifetimeView| !reaped(pids@, alive@, k)),
            ),
            forall|h: HandleView|
                handles_view(r.entries@).contains(h) <==> reaped_handle(
                    old(self).cache@.entries,
                    pids@,
                    alive@,
                    h,
                ),
            forall|h: HandleView|
                handles_view(r.icons@).contains(h) <==> reaped_handle(
                    old(self).cache@.icons,
                    pids@,
                    alive@,
                    h,
                ),
            r.changed <==> exists|k: LifetimeView| #[trigger]
                old(self).cache.has_lifetime(k) && reaped(pids@, alive@, k),
            forall|p: u32|
                final(self).change_handlers@.contains(p) <==> old(self).change_handlers@.contains(p)
                    && !reported_dead(pids@, alive@, p),
    {
        let mut dead: Vec<u32> = Vec::new();
        let mut i: usize = 0;
        while i < pids.len() && i < alive.len()
            invariant
                i <= pids@.len(),
                forall|p: u32|
                    dead@.contains(p) <==> exists|j: int|
                        0 <= j < i && j < alive@.len() && pids@[j] == p && !alive@[j],
            decreases pids.len() - i,
        {
            let ghost before = dead@;
            if !alive[i] {
                dead.push(pids[i]);
            }
            proof {
                let d = dead@;
                assert forall|p: u32| d.contains(p) <==> exists|j: int|
                    0 <= j < i + 1 && j < alive@.len() && pids@[j] == p && !alive@[j] by {
                    if d.contains(p) && !before.contains(p) {
                        let x = choose|x: int| 0 <= x < d.len() && d[x] == p;
                        if x < before.len() {
                            assert(before[x] == p);
                        }
                        assert(pids@[i as int] == p && !alive@[i as int]);
                    }
                    if before.contains(p) {
                        let x = choose|x: int| 0 <= x < before.len() && before[x] == p;
                        assert(d[x] == p);
                    }
                    if !alive@[i as int] && pids@[i as int] == p {
                        assert(d[before.len() as int] == p);
                    }
                }
            }
            i += 1;
        }
        proof {
            assert forall|p: u32| dead@.contains(p) <==> reported_dead(pids@, alive@, p) by {
                if reported_dead(pids@, alive@, p) {
                    let j = choose|j: int|
                        0 <= j < pids@.len() && j < alive@.len() && pids@[j] == p && !alive@[j];
                    assert(j < i);
                }
            }
        }
        let sel = Sweep::Processes(dead);
        let r = self.cache.sweep(&sel);
        proof {
            assert forall|k: LifetimeView| sel.picks(k) == reaped(pids@, alive@, k) by {}
            assert(Set::new(|k: LifetimeView| !sel.picks(k)) =~= Set::new(
                |k: LifetimeView| !reaped(pids@, alive@, k),
            ));
            assert forall|h: HandleView|
                held_under(old(self).cache@.entries, &sel, h) == reaped_handle(
                    old(self).cache@.entries,
                    pids@,
                    alive@,
                    h,
                ) by {}
            assert forall|h: HandleView|
                held_under(old(self).cache@.icons, &sel, h) == reaped_handle(
                    old(self).cache@.icons,
                    pids@,
                    alive@,
                    h,
                ) by {}
            if r.changed {
                let k = choose|k: LifetimeView| #[trigger]
                    old(self).cache.has_lifetime(k) && sel.picks(k);
                assert(old(self).cache.has_lifetime(k) && reaped(pids@, alive@, k));
            }
            if exists|k: LifetimeView| #[trigger]
                old(self).cache.has_lifetime(k) && reaped(pids@, alive@, k) {
                let k = choose|k: LifetimeView| #[trigger]
                    old(self).cache.has_lifetime(k) && reaped(pids@, alive@, k);
                assert(old(self).cache.has_lifetime(k) && sel.picks(k));
            }
        }
        let mut kept: Vec<u32> = Vec::new();
        let mut j: usize = 0;
        while j < self.change_handlers.len()
            invariant
                j <= self.change_handlers@.len(),
                self.change_handlers == old(self).change_handlers,
                self.cache.wf(),
                kept@.no_duplicates(),
                sel == Sweep::Processes(dead),
                forall|p: u32| dead@.contains(p) <==> reported_dead(pids@, alive@, p),
                forall|p: u32|
                    kept@.contains(p) <==> (exists|x: int|
                        0 <= x < j && self.change_handlers@[x] == p) && !reported_dead(
                        pids@,
                        alive@,
                        p,
                    ),
            decreases self.change_handlers.len() - j,
        {
            let p = self.change_handlers[j];
            let is_dead = match &sel {
                Sweep::Processes(d) => crate::shelf::contains_pid(d, p),
                Sweep::Sessions => false,
            };
            if !is_dead {
                push_unique(&mut kept, p);
            }
            j += 1;
        }
        proof {
            assert forall|p: u32|
                kept@.contains(p) <==> old(self).change_handlers@.contains(p) && !reported_dead(
                    pids@,
                    alive@,
                    p,
                ) by {}
        }
        self.change_handlers = kept;
        r
    }
}

fn contains_u32(v: &Vec<u32>, x: u32) -> (r: bool)
    ensures
        r == v@.contains(x),
{
    let mut i: usize = 0;
    while i < v.len()
        invariant
            i <= v@.len(),
            forall|j: int| 0 <= j < i ==> v@[j] != x,
        decreases v.len() - i,
    {
        if v[i] == x {
            assert(v@[i as int] == x);
            return true;
        }
        i += 1;
    }
    false
}

} // verus!
