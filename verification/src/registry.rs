//! Collections of weak handles to scheduled events: `TickerVec`, a list, and
//! `TickerMonitor`, a map from keys of the user's choosing.
//!
//! Both only hold the handles; whether the event behind a handle is still
//! alive is asked of the caller (see `clean`).

use crate::seqs::flags_of;
use crate::seqs::remove_flagged;
use crate::seqs::unflagged;
use std::collections::HashMap;
use std::hash::Hash;
use vstd::prelude::*;
use vstd::std_specs::hash::obeys_key_model;

verus! {

broadcast use vstd::std_specs::hash::group_hash_axioms;

/// Calls `Vec::capacity`: the number of items the vector can hold without
/// asking for more memory, which is at least the number it holds.  How much
/// more is what the allocator gave, and is left unsaid.
#[verifier::external_body]
fn vec_capacity<W>(v: &Vec<W>) -> (r: usize)
    ensures
        r >= v@.len(),
{
    v.capacity()
}

/// Calls `Vec::shrink_to`, which may give memory back but leaves the items as
/// they are.
#[verifier::external_body]
fn vec_shrink_to<W>(v: &mut Vec<W>, min_capacity: usize)
    ensures
        final(v)@ == old(v)@,
{
    v.shrink_to(min_capacity)
}

/// Calls `HashMap::capacity`: the number of entries the map can hold without
/// asking for more memory, which is at least the number it holds.  How much
/// more is what the allocator gave, and is left unsaid.
#[verifier::external_body]
fn map_capacity<K, W>(m: &HashMap<K, W>) -> (r: usize)
    ensures
        r >= m@.len(),
{
    m.capacity()
}

/// Calls `HashMap::shrink_to`, which may give memory back but leaves the
/// entries as they are.
#[verifier::external_body]
fn map_shrink_to<K: Eq + Hash, W>(m: &mut HashMap<K, W>, min_capacity: usize)
    ensures
        final(m)@ == old(m)@,
{
    m.shrink_to(min_capacity)
}

/// Takes a map apart into its entries (`HashMap::into_iter`, collected into a
/// `Vec`): each entry once, in the order the map is walked, which is left
/// unsaid.
#[verifier::external_body]
fn map_into_entries<K: Eq + Hash, W>(m: HashMap<K, W>) -> (r: Vec<(K, W)>)
    requires
        obeys_key_model::<K>(),
    ensures
        r@.len() == m@.len(),
        forall|i: int| 0 <= i < r@.len() ==> #[trigger] m@.contains_key(r@[i].0) && m@[r@[i].0] == r@[i].1,
        forall|i: int, j: int| 0 <= i < j < r@.len() ==> #[trigger] r@[i].0 != #[trigger] r@[j].0,
        forall|k: K| #[trigger] m@.contains_key(k) ==> exists|i: int| 0 <= i < r@.len() && r@[i].0 == k,
{
    m.into_iter().collect()
}

/// A list of weak handles to events.
#[derive(Debug, Clone)]
pub struct TickerVec<W> {
    inner: Vec<W>,
}

impl<W> TickerVec<W> {
    /// The handles, in the order they were added.
    pub closed spec fn view(&self) -> Seq<W> {
        self.inner@
    }

    /// An empty list.
    pub fn new() -> (r: Self)
        ensures
            r.view() == Seq::<W>::empty(),
    {
        TickerVec { inner: Vec::new() }
    }

    /// An empty list with room for `capacity` handles.
    pub fn with_capacity(capacity: usize) -> (r: Self)
        ensures
            r.view() == Seq::<W>::empty(),
    {
        TickerVec { inner: Vec::with_capacity(capacity) }
    }

    /// Drops the handles whose event is gone, as `is_dead` reports it; the
    /// others keep their order.
    pub fn clean<F>(&mut self, is_dead: F) where F: Fn(&W) -> bool
        requires
            forall|w: &W| #[trigger] is_dead.requires((w,)),
        ensures
            exists|dead: Seq<bool>|
                {
                    &&& dead.len() == old(self).view().len()
                    &&& forall|i: int|
                        0 <= i < dead.len() ==> call_ensures(is_dead, (&old(self).view()[i],), #[trigger] dead[i])
                    &&& final(self).view() == unflagged(old(self).view(), dead)
                },
    {
        let dead = flags_of(&self.inner, is_dead);
        let mut items: Vec<W> = Vec::new();
        std::mem::swap(&mut items, &mut self.inner);
        self.inner = remove_flagged(items, &dead);
    }

    /// Adds `value` after the others.
    pub fn add(&mut self, value: W)
        ensures
            final(self).view() == old(self).view().push(value),
    {
        self.inner.push(value);
    }

    /// Drops every handle.
    pub fn clear(&mut self)
        ensures
            final(self).view() == Seq::<W>::empty(),
    {
        self.inner.clear();
    }

    /// The number of handles.
    pub fn len(&self) -> (r: usize)
        ensures
            r == self.view().len(),
    {
        self.inner.len()
    }

    /// Makes room for at least `additional` more handles.
    pub fn reserve(&mut self, additional: usize)
        ensures
            final(self).view() == old(self).view(),
    {
        self.inner.reserve(additional);
    }

    /// How many handles the list can hold without asking for more memory: at
    /// least as many as it holds.
    pub fn capacity(&self) -> (r: usize)
        ensures
            r >= self.view().len(),
    {
        vec_capacity(&self.inner)
    }

    /// Gives back memory, keeping room for at least `min_capacity` handles.
    pub fn shrink_to(&mut self, min_capacity: usize)
        ensures
            final(self).view() == old(self).view(),
    {
        vec_shrink_to(&mut self.inner, min_capacity);
    }

    /// Whether there are no handles.
    pub fn is_empty(&self) -> (r: bool)
        ensures
            r == (self.view().len() == 0),
    {
        self.inner.is_empty()
    }
}

/// The map `m` with the entry under `from` moved to `to` (unchanged if there
/// is none under `from`).
pub open spec fn moved<K, W>(m: Map<K, W>, from: K, to: K) -> Map<K, W> {
    if m.contains_key(from) {
        m.remove(from).insert(to, m[from])
    } else {
        m
    }
}

/// A map from keys to weak handles to events.
#[derive(Debug, Clone)]
pub struct TickerMonitor<K, W> {
    inner: HashMap<K, W>,
}

impl<K: Eq + Hash, W> TickerMonitor<K, W> {
    /// The handles by key.
    pub closed spec fn view(&self) -> Map<K, W> {
        self.inner@
    }

    /// The map holds finitely many handles.
    pub proof fn lemma_view_finite(&self)
        ensures
            self.view().dom().finite(),
    {
    }

    /// An empty map.
    pub fn new() -> (r: Self)
        ensures
            r.view() == Map::<K, W>::empty(),
    {
        TickerMonitor { inner: HashMap::new() }
    }

    /// An empty map with room for `capacity` handles.
    pub fn with_capacity(capacity: usize) -> (r: Self)
        ensures
            r.view() == Map::<K, W>::empty(),
    {
        TickerMonitor { inner: HashMap::with_capacity(capacity) }
    }

    /// Drops the entries whose event is gone, as `is_dead` reports it for
    /// their handles; the others stay as they are.
    pub fn clean<F>(&mut self, is_dead: F) where F: Fn(&W) -> bool
        requires
            obeys_key_model::<K>(),
            forall|w: &W| #[trigger] is_dead.requires((w,)),
        ensures
            final(self).view().dom().subset_of(old(self).view().dom()),
            forall|k: K|
                #[trigger] final(self).view().contains_key(k) ==> final(self).view()[k] == old(self).view()[k]
                    && call_ensures(is_dead, (&old(self).view()[k],), false),
            forall|k: K|
                #[trigger] old(self).view().contains_key(k) && !final(self).view().contains_key(k)
                    ==> call_ensures(is_dead, (&old(self).view()[k],), true),
    {
        let ghost m0 = self.inner@;
        let cap = map_capacity(&self.inner);
        let mut old_map: HashMap<K, W> = HashMap::with_capacity(cap);
        std::mem::swap(&mut old_map, &mut self.inner);
        let entries = map_into_entries(old_map);
        let n = entries.len();
        let mut rest = entries;
        let ghost all = rest@;
        assert forall|k: K| #[trigger] m0.contains_key(k) implies exists|j: int| 0 <= j < n && all[j].0 == k by {
        }
        let mut i: usize = 0;
        while rest.len() > 0
            invariant
                obeys_key_model::<K>(),
                forall|w: &W| #[trigger] is_dead.requires((w,)),
                all.len() == n,
                n == m0.len(),
                i + rest@.len() == n,
                rest@ == all.skip(i as int),
                forall|j: int| 0 <= j < all.len() ==> #[trigger] m0.contains_key(all[j].0) && m0[all[j].0] == all[j].1,
                forall|a: int, b: int| 0 <= a < b < all.len() ==> #[trigger] all[a].0 != #[trigger] all[b].0,
                forall|k: K| #[trigger] self.inner@.contains_key(k) ==> exists|j: int| 0 <= j < i && all[j].0 == k,
                forall|k: K|
                    #[trigger] self.inner@.contains_key(k) ==> m0.contains_key(k) && self.inner@[k] == m0[k]
                        && call_ensures(is_dead, (&m0[k],), false),
                forall|j: int|
                    0 <= j < i && !self.inner@.contains_key(#[trigger] all[j].0) ==> call_ensures(
                        is_dead,
                        (&m0[all[j].0],),
                        true,
                    ),
                forall|j: int| i <= j < n ==> !self.inner@.contains_key(#[trigger] all[j].0),
            decreases rest.len(),
        {
            let (k, w) = rest.remove(0);
            assert(rest@ =~= all.skip(i + 1));
            assert(all[i as int] == (k, w));
            let dead = is_dead(&w);
            assert(m0.contains_key(all[i as int].0));
            assert(m0[all[i as int].0] == w);
            if !dead {
                self.inner.insert(k, w);
            } else {
                assert(call_ensures(is_dead, (&m0[all[i as int].0],), true));
            }
            assert forall|j: int|
                0 <= j < i + 1 && !self.inner@.contains_key(#[trigger] all[j].0) implies call_ensures(
                is_dead,
                (&m0[all[j].0],),
                true,
            ) by {
                if j < i {
                    assert(all[j].0 != all[i as int].0);
                }
            }
            i = i + 1;
        }
        assert forall|k: K| #[trigger] m0.contains_key(k) && !self.inner@.contains_key(k) implies call_ensures(
            is_dead,
            (&m0[k],),
            true,
        ) by {
            let j = choose|j: int| 0 <= j < n && all[j].0 == k;
            assert(!self.inner@.contains_key(all[j].0));
        }
    }
    /// Puts `weak` under `key`, giving back the handle that was there before.
    pub fn add(&mut self, key: K, weak: W) -> (r: Option<W>)
        requires
            obeys_key_model::<K>(),
        ensures
            final(self).view() == old(self).view().insert(key, weak),
            r == (if old(self).view().contains_key(key) {
                Some(old(self).view()[key])
            } else {
                None::<W>
            }),
    {
        self.inner.insert(key, weak)
    }

    /// Moves the handle under `old_key` to `new_key`.  Without `overwrite`
    /// nothing happens, and `false` comes back, when `new_key` already has a
    /// handle; otherwise the move is made (if there is anything under
    /// `old_key`) and `true` comes back.
    pub fn regroup(&mut self, old_key: &K, new_key: K, overwrite: bool) -> (r: bool)
        requires
            obeys_key_model::<K>(),
        ensures
            r == (overwrite || !old(self).view().contains_key(new_key)),
            r ==> final(self).view() == moved(old(self).view(), *old_key, new_key),
            !r ==> final(self).view() == old(self).view(),
            !old(self).view().contains_key(*old_key) ==> final(self).view() == old(self).view(),
            forall|k: K|
                k != *old_key && k != new_key ==> (#[trigger] final(self).view().contains_key(k)
                    <==> old(self).view().contains_key(k)),
            forall|k: K|
                k != *old_key && k != new_key && old(self).view().contains_key(k)
                    ==> #[trigger] final(self).view()[k] == old(self).view()[k],
            r && old(self).view().contains_key(*old_key) ==> final(self).view().contains_key(new_key)
                && final(self).view()[new_key] == old(self).view()[*old_key],
    {
        if overwrite {
            if let Some(weak) = self.inner.remove(old_key) {
                self.inner.insert(new_key, weak);
            }
            true
        } else {
            if self.inner.contains_key(&new_key) {
                false
            } else {
                if let Some(weak) = self.inner.remove(old_key) {
                    self.inner.insert(new_key, weak);
                }
                true
            }
        }
    }

    /// Whether there is a handle under `key`.
    pub fn contains(&self, key: &K) -> (r: bool)
        requires
            obeys_key_model::<K>(),
        ensures
            r == self.view().contains_key(*key),
    {
        self.inner.contains_key(key)
    }

    /// Takes out the handle under `key`, if any.
    pub fn remove(&mut self, key: &K) -> (r: Option<W>)
        requires
            obeys_key_model::<K>(),
        ensures
            final(self).view() == old(self).view().remove(*key),
            r == (if old(self).view().contains_key(*key) {
                Some(old(self).view()[*key])
            } else {
                None::<W>
            }),
    {
        self.inner.remove(key)
    }

    /// Drops every handle.
    pub fn clear(&mut self)
        ensures
            final(self).view() == Map::<K, W>::empty(),
    {
        self.inner.clear();
    }

    /// The number of handles.
    pub fn len(&self) -> (r: usize)
        requires
            obeys_key_model::<K>(),
        ensures
            r == self.view().len(),
    {
        self.inner.len()
    }

    /// Makes room for at least `additional` more handles.
    pub fn reserve(&mut self, additional: usize)
        ensures
            final(self).view() == old(self).view(),
    {
        self.inner.reserve(additional);
    }

    /// How many handles the map can hold without asking for more memory: at
    /// least as many as it holds.
    pub fn capacity(&self) -> (r: usize)
        ensures
            r >= self.view().len(),
    {
        map_capacity(&self.inner)
    }

    /// Gives back memory, keeping room for at least `min_capacity` handles.
    pub fn shrink_to(&mut self, min_capacity: usize)
        ensures
            final(self).view() == old(self).view(),
    {
        map_shrink_to(&mut self.inner, min_capacity);
    }

    /// Whether there are no handles.
    pub fn is_empty(&self) -> (r: bool)
        ensures
            r == (self.view().len() == 0),
    {
        self.inner.is_empty()
    }
}

/// Moving touches only the two keys involved.  Every other key keeps exactly
/// what it had; with nothing under `from` the map is left as it is; with a
/// handle under `from`, that handle ends up under `to` and `from` is emptied
/// (unless it is `to` itself).
pub proof fn lemma_moved_touches_only<K, W>(m: Map<K, W>, from: K, to: K)
    ensures
        forall|k: K|
            k != from && k != to ==> (#[trigger] moved(m, from, to).contains_key(k) <==> m.contains_key(k)),
        forall|k: K|
            k != from && k != to && m.contains_key(k) ==> #[trigger] moved(m, from, to)[k] == m[k],
        !m.contains_key(from) ==> moved(m, from, to) == m,
        m.contains_key(from) ==> moved(m, from, to).contains_key(to) && moved(m, from, to)[to] == m[from],
        m.contains_key(from) && from != to ==> !moved(m, from, to).contains_key(from),
{
}

/// Moving a handle to a free key and back again restores the map.
pub proof fn lemma_regroup_undo<K, W>(m: Map<K, W>, a: K, b: K)
    requires
        m.contains_key(a),
        !m.contains_key(b),
    ensures
        moved(moved(m, a, b), b, a) == m,
{
    assert(moved(moved(m, a, b), b, a) =~= m);
}

/// Moving a handle to a free key, or onto itself, loses no handle.
pub proof fn lemma_regroup_keeps_count<K, W>(m: Map<K, W>, a: K, b: K)
    requires
        m.dom().finite(),
        !m.contains_key(b) || a == b,
    ensures
        moved(m, a, b).len() == m.len(),
{
    if m.contains_key(a) {
        if a == b {
            assert(moved(m, a, b) =~= m);
        } else {
            assert(m.remove(a).len() == m.len() - 1);
            assert(!m.remove(a).contains_key(b));
        }
    }
}

/// Adding a handle under a free key and removing it again restores the map.
pub proof fn lemma_add_remove_undo<K, W>(m: Map<K, W>, k: K, w: W)
    requires
        !m.contains_key(k),
    ensures
        m.insert(k, w).remove(k) == m,
{
    assert(m.insert(k, w).remove(k) =~= m);
}

} // verus!
