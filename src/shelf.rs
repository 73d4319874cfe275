//! A small association list keyed by lifetime: the shape in which the
//! catalog keeps each of its two maps. Keys are unique; the handles under a
//! key keep the order in which they were added.
use vstd::prelude::*;

use crate::handle::{HandleView, Stored};
use crate::lifetime::{Lifetime, LifetimeView};

verus! {

/// A shelf in spec terms: the pairs in stored order.
pub type ShelfView = Seq<(LifetimeView, Seq<HandleView>)>;

pub open spec fn handles_view<H: View<V = HandleView>>(v: Seq<H>) -> Seq<HandleView> {
    v.map_values(|h: H| h@)
}

pub open spec fn shelf_view<H: View<V = HandleView>>(s: Seq<(Lifetime, Vec<H>)>) -> ShelfView {
    s.map_values(|p: (Lifetime, Vec<H>)| (p.0@, handles_view(p.1@)))
}

pub open spec fn keys_unique(s: ShelfView) -> bool {
    forall|i: int, j: int| #![trigger s[i], s[j]] 0 <= i < j < s.len() ==> s[i].0 != s[j].0
}

/// The map that a shelf stands for.
pub open spec fn map_of(s: ShelfView) -> Map<LifetimeView, Seq<HandleView>>
    decreases s.len(),
{
    if s.len() == 0 {
        Map::empty()
    } else {
        map_of(s.drop_last()).insert(s.last().0, s.last().1)
    }
}

/// The handles stored under `k`, none if `k` is absent.
pub open spec fn lookup(m: Map<LifetimeView, Seq<HandleView>>, k: LifetimeView) -> Seq<HandleView> {
    if m.dom().contains(k) {
        m[k]
    } else {
        Seq::empty()
    }
}

/// `m` with `h` appended to the handles under `k`.
pub open spec fn with_handle(
    m: Map<LifetimeView, Seq<HandleView>>,
    k: LifetimeView,
    h: HandleView,
) -> Map<LifetimeView, Seq<HandleView>> {
    m.insert(k, lookup(m, k).push(h))
}

/// Whether some handle in `m` is stored at `p`.
pub open spec fn holds_path(m: Map<LifetimeView, Seq<HandleView>>, p: Seq<char>) -> bool {
    exists|k: LifetimeView, j: int|
        #![trigger m[k][j]]
        m.dom().contains(k) && 0 <= j < m[k].len() && m[k][j].1 == p
}

/// Whether `h` is stored under some key that `sel` picks.
pub open spec fn held_under(
    m: Map<LifetimeView, Seq<HandleView>>,
    sel: &Sweep,
    h: HandleView,
) -> bool {
    exists|k: LifetimeView| #[trigger] m.dom().contains(k) && sel.picks(k) && m[k].contains(h)
}

pub proof fn lemma_map_of_dom(s: ShelfView, k: LifetimeView)
    ensures
        map_of(s).dom().contains(k) <==> exists|i: int| 0 <= i < s.len() && s[i].0 == k,
    decreases s.len(),
{
    if s.len() > 0 {
        let t = s.drop_last();
        lemma_map_of_dom(t, k);
        if map_of(t).dom().contains(k) {
            let i = choose|i: int| 0 <= i < t.len() && t[i].0 == k;
            assert(s[i].0 == k);
        }
        if exists|i: int| 0 <= i < s.len() && s[i].0 == k {
            let i = choose|i: int| 0 <= i < s.len() && s[i].0 == k;
            if i < t.len() {
                assert(t[i].0 == k);
            }
        }
    }
}

pub proof fn lemma_map_of_at(s: ShelfView, i: int)
    requires
        keys_unique(s),
        0 <= i < s.len(),
    ensures
        map_of(s).dom().contains(s[i].0),
        map_of(s)[s[i].0] == s[i].1,
    decreases s.len(),
{
    if i < s.len() - 1 {
        let t = s.drop_last();
        assert(t[i] == s[i]);
        assert(s[i].0 != s[s.len() - 1].0);
        lemma_map_of_at(t, i);
    }
}

pub proof fn lemma_map_of_push(s: ShelfView, p: (LifetimeView, Seq<HandleView>))
    requires
        keys_unique(s),
        !map_of(s).dom().contains(p.0),
    ensures
        keys_unique(s.push(p)),
        map_of(s.push(p)) == map_of(s).insert(p.0, p.1),
{
    assert(s.push(p).drop_last() =~= s);
    assert forall|i: int, j: int| #![trigger s.push(p)[i], s.push(p)[j]]
        0 <= i < j < s.push(p).len() implies s.push(p)[i].0 != s.push(p)[j].0 by {
        if j == s.len() {
            lemma_map_of_dom(s, p.0);
            assert(s[i] == s.push(p)[i]);
        } else {
            assert(s[i] == s.push(p)[i] && s[j] == s.push(p)[j]);
        }
    }
}

pub proof fn lemma_map_of_remove(s: ShelfView, i: int)
    requires
        keys_unique(s),
        0 <= i < s.len(),
    ensures
        keys_unique(s.remove(i)),
        map_of(s.remove(i)) == map_of(s).remove(s[i].0),
    decreases s.len(),
{
    let t = s.drop_last();
    let k = s[i].0;
    assert(keys_unique(t)) by {
        assert forall|a: int, b: int| #![trigger t[a], t[b]] 0 <= a < b < t.len() implies t[a].0
            != t[b].0 by {
            assert(t[a] == s[a] && t[b] == s[b]);
        }
    }
    assert(keys_unique(s.remove(i))) by {
        let r = s.remove(i);
        assert forall|a: int, b: int| #![trigger r[a], r[b]] 0 <= a < b < r.len() implies r[a].0
            != r[b].0 by {
            let a2 = if a < i { a } else { a + 1 };
            let b2 = if b < i { b } else { b + 1 };
            assert(r[a] == s[a2] && r[b] == s[b2]);
        }
    }
    if i == s.len() - 1 {
        assert(s.remove(i) =~= t);
        lemma_map_of_dom(t, k);
        if map_of(t).dom().contains(k) {
            let j = choose|j: int| 0 <= j < t.len() && t[j].0 == k;
            assert(s[j] == t[j]);
        }
        assert(map_of(s.remove(i)) =~= map_of(s).remove(k));
    } else {
        let l = s.last();
        assert(t[i] == s[i]);
        assert(s.remove(i) =~= t.remove(i).push(l));
        assert(s.remove(i).drop_last() =~= t.remove(i));
        lemma_map_of_remove(t, i);
        assert(l.0 != k);
        assert(map_of(s.remove(i)) =~= map_of(s).remove(k));
    }
}

pub proof fn lemma_map_of_update(s: ShelfView, i: int, v: Seq<HandleView>)
    requires
        keys_unique(s),
        0 <= i < s.len(),
    ensures
        keys_unique(s.update(i, (s[i].0, v))),
        map_of(s.update(i, (s[i].0, v))) == map_of(s).insert(s[i].0, v),
    decreases s.len(),
{
    let k = s[i].0;
    let u = s.update(i, (k, v));
    let t = s.drop_last();
    assert forall|a: int, b: int| #![trigger u[a], u[b]] 0 <= a < b < u.len() implies u[a].0
        != u[b].0 by {
        assert(u[a].0 == s[a].0 && u[b].0 == s[b].0);
    }
    if i == s.len() - 1 {
        assert(u.drop_last() =~= t);
        assert(map_of(u) =~= map_of(s).insert(k, v));
    } else {
        assert(keys_unique(t)) by {
            assert forall|a: int, b: int| #![trigger t[a], t[b]] 0 <= a < b < t.len() implies t[a].0
                != t[b].0 by {
                assert(t[a] == s[a] && t[b] == s[b]);
            }
        }
        assert(t[i] == s[i]);
        assert(u.drop_last() =~= t.update(i, (k, v)));
        lemma_map_of_update(t, i, v);
        assert(s.last().0 != k);
        assert(map_of(u) =~= map_of(s).insert(k, v));
    }
}

/// Which keys a sweep takes off a shelf.
pub enum Sweep {
    /// Every session lifetime.
    Sessions,
    /// The lifetimes of these processes.
    Processes(Vec<u32>),
}

impl Sweep {
    pub open spec fn picks(&self, k: LifetimeView) -> bool {
        match self {
            Sweep::Sessions => k is Session,
            Sweep::Processes(pids) => k matches LifetimeView::Process(p) && pids@.contains(p),
        }
    }

    pub fn picks_key(&self, k: &Lifetime) -> (r: bool)
        ensures
            r == self.picks(k@),
    {
        match self {
            Sweep::Sessions => k.is_session(),
            Sweep::Processes(pids) => match k {
                Lifetime::Process(p) => contains_pid(pids, *p),
                _ => false,
            },
        }
    }
}

pub fn contains_pid(pids: &Vec<u32>, p: u32) -> (r: bool)
    ensures
        r == pids@.contains(p),
{
    let mut i: usize = 0;
    while i < pids.len()
        invariant
            i <= pids.len(),
            forall|j: int| 0 <= j < i ==> pids@[j] != p,
        decreases pids.len() - i,
    {
        if pids[i] == p {
            assert(pids@[i as int] == p);
            return true;
        }
        i += 1;
    }
    false
}

/// The position of `k` on the shelf, if it is there.
pub fn find_key<H: View<V = HandleView>>(s: &Vec<(Lifetime, Vec<H>)>, k: &Lifetime) -> (r: Option<
    usize,
>)
    ensures
        match r {
            Some(i) => i < s@.len() && shelf_view(s@)[i as int].0 == k@,
            None => !map_of(shelf_view(s@)).dom().contains(k@),
        },
{
    let mut i: usize = 0;
    while i < s.len()
        invariant
            i <= s@.len(),
            forall|j: int| 0 <= j < i ==> shelf_view(s@)[j].0 != k@,
        decreases s.len() - i,
    {
        if s[i].0.eq(k) {
            return Some(i);
        }
        i += 1;
    }
    proof {
        lemma_map_of_dom(shelf_view(s@), k@);
    }
    None
}

/// Appends `h` to the handles under `k`, adding `k` if it is new.
pub fn add_handle<H: View<V = HandleView>>(s: &mut Vec<(Lifetime, Vec<H>)>, k: Lifetime, h: H)
    requires
        keys_unique(shelf_view(old(s)@)),
    ensures
        keys_unique(shelf_view(final(s)@)),
        map_of(shelf_view(final(s)@)) == with_handle(map_of(shelf_view(old(s)@)), k@, h@),
{
    let ghost before = shelf_view(s@);
    match find_key(s, &k) {
        Some(i) => {
            proof {
                lemma_map_of_at(before, i as int);
            }
            let mut pair = s.remove(i);
            let ghost hs = handles_view(pair.1@);
            pair.1.push(h);
            assert(handles_view(pair.1@) =~= hs.push(h@));
            s.insert(i, pair);
            proof {
                assert(shelf_view(s@) =~= before.update(i as int, (k@, hs.push(h@))));
                lemma_map_of_update(before, i as int, hs.push(h@));
            }
        },
        None => {
            let mut v: Vec<H> = Vec::new();
            v.push(h);
            let ghost kv = k@;
            s.push((k, v));
            proof {
                assert(handles_view(v@) =~= seq![h@]);
                assert(shelf_view(s@) =~= before.push((kv, seq![h@])));
                lemma_map_of_push(before, (kv, seq![h@]));
                assert(Seq::<HandleView>::empty().push(h@) =~= seq![h@]);
            }
        },
    }
}

/// Takes `k` and its handles off the shelf.
pub fn remove_key<H: View<V = HandleView>>(s: &mut Vec<(Lifetime, Vec<H>)>, k: &Lifetime) -> (r:
    Option<Vec<H>>)
    requires
        keys_unique(shelf_view(old(s)@)),
    ensures
        keys_unique(shelf_view(final(s)@)),
        map_of(shelf_view(final(s)@)) == map_of(shelf_view(old(s)@)).remove(k@),
        r is Some <==> map_of(shelf_view(old(s)@)).dom().contains(k@),
        r matches Some(v) ==> handles_view(v@) == map_of(shelf_view(old(s)@))[k@],
{
    let ghost before = shelf_view(s@);
    match find_key(s, k) {
        Some(i) => {
            proof {
                lemma_map_of_at(before, i as int);
                lemma_map_of_remove(before, i as int);
            }
            let pair = s.remove(i);
            assert(shelf_view(s@) =~= before.remove(i as int));
            Some(pair.1)
        },
        None => {
            assert(map_of(before).remove(k@) =~= map_of(before));
            None
        },
    }
}

/// Whether some handle on the shelf is stored at `p`.
pub fn shelf_holds_path<H: Stored>(s: &Vec<(Lifetime, Vec<H>)>, p: &String) -> (r: bool)
    requires
        keys_unique(shelf_view(s@)),
    ensures
        r == holds_path(map_of(shelf_view(s@)), p@),
{
    let ghost sv = shelf_view(s@);
    let mut i: usize = 0;
    while i < s.len()
        invariant
            i <= s@.len(),
            sv == shelf_view(s@),
            keys_unique(sv),
            forall|a: int, b: int|
                #![trigger sv[a].1[b]]
                0 <= a < i && 0 <= b < sv[a].1.len() ==> sv[a].1[b].1 != p@,
        decreases s.len() - i,
    {
        let hs = &s[i].1;
        let mut j: usize = 0;
        while j < hs.len()
            invariant
                i < s@.len(),
                hs == s@[i as int].1,
                j <= hs@.len(),
                sv == shelf_view(s@),
                keys_unique(sv),
                forall|b: int| #![trigger sv[i as int].1[b]] 0 <= b < j ==> sv[i as int].1[b].1 != p@,
            decreases hs.len() - j,
        {
            if hs[j].stored_path().eq(p) {
                proof {
                    lemma_map_of_at(sv, i as int);
                    let k = sv[i as int].0;
                    assert(map_of(sv)[k][j as int].1 == p@);
                }
                return true;
            }
            j += 1;
        }
        i += 1;
    }
    proof {
        let m = map_of(sv);
        if holds_path(m, p@) {
            let (k, b) = choose|k: LifetimeView, b: int|
                #![trigger m[k][b]]
                m.dom().contains(k) && 0 <= b < m[k].len() && m[k][b].1 == p@;
            lemma_map_of_dom(sv, k);
            let a = choose|a: int| 0 <= a < sv.len() && sv[a].0 == k;
            lemma_map_of_at(sv, a);
            assert(sv[a].1[b].1 == p@);
        }
    }
    false
}

/// Takes every key that `sel` picks off the shelf, and hands back the
/// handles that were stored under them.
pub fn sweep<H: View<V = HandleView>>(s: &mut Vec<(Lifetime, Vec<H>)>, sel: &Sweep) -> (r: Vec<H>)
    requires
        keys_unique(shelf_view(old(s)@)),
    ensures
        keys_unique(shelf_view(final(s)@)),
        map_of(shelf_view(final(s)@)) == map_of(shelf_view(old(s)@)).restrict(
            Set::new(|k: LifetimeView| !sel.picks(k)),
        ),
        forall|h: HandleView|
            handles_view(r@).contains(h) <==> held_under(map_of(shelf_view(old(s)@)), sel, h),
        final(s)@.len() <= old(s)@.len(),
        final(s)@.len() < old(s)@.len() <==> exists|k: LifetimeView|
            #[trigger] map_of(shelf_view(old(s)@)).dom().contains(k) && sel.picks(k),
{
    let ghost orig_sv = shelf_view(s@);
    let ghost orig_len = s@.len();
    let ghost orig = map_of(shelf_view(s@));
    let mut removed: Vec<H> = Vec::new();
    let mut i: usize = 0;
    while i < s.len()
        invariant
            i <= s@.len(),
            keys_unique(shelf_view(s@)),
            forall|j: int| 0 <= j < i ==> !sel.picks(#[trigger] shelf_view(s@)[j].0),
            forall|k: LifetimeView| #[trigger]
                map_of(shelf_view(s@)).dom().contains(k) ==> orig.dom().contains(k)
                    && map_of(shelf_view(s@))[k] == orig[k],
            forall|k: LifetimeView| #[trigger]
                orig.dom().contains(k) && !sel.picks(k) ==> map_of(
                    shelf_view(s@),
                ).dom().contains(k),
            forall|k: LifetimeView, h: HandleView|
                #![trigger orig[k].contains(h)]
                orig.dom().contains(k) && sel.picks(k) && !map_of(shelf_view(s@)).dom().contains(
                    k,
                ) && orig[k].contains(h) ==> handles_view(removed@).contains(h),
            forall|h: HandleView| #[trigger]
                handles_view(removed@).contains(h) ==> held_under(orig, sel, h),
            s@.len() <= orig_len,
            s@.len() == orig_len ==> shelf_view(s@) == orig_sv,
            s@.len() < orig_len ==> exists|k: LifetimeView|
                #[trigger] orig.dom().contains(k) && sel.picks(k),
            orig == map_of(orig_sv),
        decreases s.len() - i,
    {
        if sel.picks_key(&s[i].0) {
            let ghost sv = shelf_view(s@);
            let ghost old_removed = handles_view(removed@);
            proof {
                lemma_map_of_at(sv, i as int);
                lemma_map_of_remove(sv, i as int);
                assert(map_of(sv).dom().contains(sv[i as int].0));
                assert(orig.dom().contains(sv[i as int].0) && orig[sv[i as int].0] == sv[i as int].1);
            }
            let pair = s.remove(i);
            assert(shelf_view(s@) =~= sv.remove(i as int));
            let ghost k = pair.0@;
            let ghost moved = handles_view(pair.1@);
            assert(k == sv[i as int].0 && moved == sv[i as int].1);
            assert(sel.picks(k));
            let mut hs = pair.1;
            removed.append(&mut hs);
            proof {
                assert(handles_view(removed@) =~= old_removed + moved);
                assert forall|h: HandleView| #[trigger]
                    handles_view(removed@).contains(h) implies held_under(orig, sel, h) by {
                    if old_removed.contains(h) {
                    } else {
                        let x = choose|x: int|
                            0 <= x < handles_view(removed@).len() && handles_view(removed@)[x]
                                == h;
                        assert(moved[x - old_removed.len()] == h);
                        assert(orig.dom().contains(k) && sel.picks(k) && orig[k].contains(h));
                    }
                }
                assert forall|k2: LifetimeView, h: HandleView|
                    #![trigger orig[k2].contains(h)]
                    orig.dom().contains(k2) && sel.picks(k2) && !map_of(
                        shelf_view(s@),
                    ).dom().contains(k2) && orig[k2].contains(h) implies handles_view(
                        removed@,
                    ).contains(h) by {
                    if k2 == k {
                        let x = choose|x: int| 0 <= x < moved.len() && moved[x] == h;
                        assert(handles_view(removed@)[old_removed.len() + x] == h);
                    } else {
                        assert(!map_of(sv).dom().contains(k2));
                        let x = choose|x: int| 0 <= x < old_removed.len() && old_removed[x] == h;
                        assert(handles_view(removed@)[x] == h);
                    }
                }
            }
        } else {
            i += 1;
        }
    }
    proof {
        let fin = map_of(shelf_view(s@));
        let kept = orig.restrict(Set::new(|k: LifetimeView| !sel.picks(k)));
        assert forall|k: LifetimeView| fin.dom().contains(k) implies !sel.picks(k) by {
            lemma_map_of_dom(shelf_view(s@), k);
            let j = choose|j: int| 0 <= j < shelf_view(s@).len() && shelf_view(s@)[j].0 == k;
        }
        assert(fin =~= kept);
        if exists|k: LifetimeView| #[trigger] orig.dom().contains(k) && sel.picks(k) {
            let k = choose|k: LifetimeView| #[trigger] orig.dom().contains(k) && sel.picks(k);
            assert(!fin.dom().contains(k));
        }
        assert forall|h: HandleView| #[trigger]
            held_under(orig, sel, h) implies handles_view(removed@).contains(h) by {
            let k = choose|k: LifetimeView| #[trigger]
                orig.dom().contains(k) && sel.picks(k) && orig[k].contains(h);
            assert(orig[k].contains(h));
        }
    }
    removed
}

/// Adds `x` to `out` unless it is there already.
pub fn push_unique(out: &mut Vec<u32>, x: u32)
    requires
        old(out)@.no_duplicates(),
    ensures
        final(out)@.no_duplicates(),
        forall|p: u32| final(out)@.contains(p) <==> old(out)@.contains(p) || p == x,
{
    let mut i: usize = 0;
    while i < out.len()
        invariant
            i <= out@.len(),
            out@ == old(out)@,
            old(out)@.no_duplicates(),
            forall|j: int| 0 <= j < i ==> out@[j] != x,
        decreases out.len() - i,
    {
        if out[i] == x {
            assert(out@[i as int] == x);
            return;
        }
        i += 1;
    }
    let ghost before = out@;
    out.push(x);
    proof {
        assert(out@[before.len() as int] == x);
        assert forall|p: u32| final(out)@.contains(p) implies before.contains(p) || p == x by {
            let j = choose|j: int| 0 <= j < out@.len() && out@[j] == p;
            if j < before.len() {
                assert(before[j] == p);
            }
        }
        assert forall|p: u32| before.contains(p) implies final(out)@.contains(p) by {
            let j = choose|j: int| 0 <= j < before.len() && before[j] == p;
            assert(out@[j] == p);
        }
    }
}

/// Whether one of the first `n` keys of the shelf is the lifetime of process `p`.
pub open spec fn owns_process(sv: ShelfView, n: int, p: u32) -> bool {
    exists|j: int| 0 <= j < n && sv[j].0 == LifetimeView::Process(p)
}

proof fn lemma_owns_process_step(sv: ShelfView, n: int, p: u32)
    requires
        0 <= n < sv.len(),
    ensures
        owns_process(sv, n + 1, p) <==> owns_process(sv, n, p) || sv[n].0 == LifetimeView::Process(
            p,
        ),
{
    if owns_process(sv, n + 1, p) && sv[n].0 != LifetimeView::Process(p) {
        let j = choose|j: int| 0 <= j < n + 1 && sv[j].0 == LifetimeView::Process(p);
        assert(j < n);
    }
}

/// Adds to `out` the id of every process lifetime on the shelf.
pub fn collect_pids<H: View<V = HandleView>>(s: &Vec<(Lifetime, Vec<H>)>, out: &mut Vec<u32>)
    requires
        old(out)@.no_duplicates(),
    ensures
        final(out)@.no_duplicates(),
        forall|p: u32|
            final(out)@.contains(p) <==> old(out)@.contains(p) || map_of(
                shelf_view(s@),
            ).dom().contains(LifetimeView::Process(p)),
{
    let ghost sv = shelf_view(s@);
    let ghost start = out@;
    let mut i: usize = 0;
    while i < s.len()
        invariant
            i <= s@.len(),
            sv == shelf_view(s@),
            out@.no_duplicates(),
            forall|p: u32| out@.contains(p) <==> start.contains(p) || owns_process(sv, i as int, p),
        decreases s.len() - i,
    {
        let ghost before = out@;
        let ghost i0 = i as int;
        assert(forall|p: u32| before.contains(p) <==> start.contains(p) || owns_process(sv, i0, p));
        match &s[i].0 {
            Lifetime::Process(pid) => {
                push_unique(out, *pid);
            },
            _ => {},
        }
        let ghost k = s@[i as int].0@;
        assert(sv[i as int].0 == k);
        i += 1;
        proof {
            assert forall|p: u32|
                out@.contains(p) <==> start.contains(p) || owns_process(sv, i as int, p) by {
                lemma_owns_process_step(sv, i0, p);
                assert(before.contains(p) <==> start.contains(p) || owns_process(sv, i0, p));
            }
        }
    }
    proof {
        assert forall|p: u32|
            out@.contains(p) <==> start.contains(p) || map_of(sv).dom().contains(
                LifetimeView::Process(p),
            ) by {
            lemma_map_of_dom(sv, LifetimeView::Process(p));
        }
    }
}

} // verus!
