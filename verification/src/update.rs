//! The queue of blocks waiting for an update, with stable handles that
//! survive the removal of other entries.
use vstd::prelude::*;
use crate::coord::Coord;

verus! {

/// A handle to an entry of a [`BlockUpdateQueue`]; zero is the null handle.
#[derive(Debug, Clone, Copy, PartialEq, Eq, PartialOrd, Ord, Hash, Structural)]
pub struct UpdateRef(pub u32);

impl Default for UpdateRef {
    /// The null handle.
    fn default() -> (r: Self)
        ensures
            r.0 == 0,
    {
        UpdateRef(0)
    }
}

impl UpdateRef {
    pub fn null(self) -> (r: bool)
        ensures
            r == (self.0 == 0),
    {
        self.0 == 0
    }

    pub fn enabled(self) -> (r: bool)
        ensures
            r == (self.0 != 0),
    {
        self.0 != 0
    }

    pub fn disabled(self) -> (r: bool)
        ensures
            r == (self.0 == 0),
    {
        self.0 == 0
    }
}

/// Slot `r` holds a live entry: it exists and was not freed.
pub open spec fn slot_live(k: Seq<Option<u32>>, u: Seq<u32>, r: int) -> bool {
    0 <= r < k.len() && !u.contains(r as u32)
}

/// The queue entries `q`, the slot table `k` and the freed slots `u` agree:
/// each entry's slot is live and points back at it, each live slot points
/// at an entry that points back, the freed slots are distinct existing
/// slots, and every slot is either live or freed.
pub open spec fn queue_wf(q: Seq<(Coord, u32)>, k: Seq<Option<u32>>, u: Seq<u32>) -> bool {
    &&& k.len() <= u32::MAX
    &&& q.len() + u.len() == k.len()
    &&& forall|e: int| 0 <= e < q.len() ==> {
        let r = (#[trigger] q[e]).1 as int;
        &&& slot_live(k, u, r)
        &&& k[r] == Some(e as u32)
    }
    &&& forall|r: int| #[trigger] slot_live(k, u, r) ==> {
        &&& k[r] is Some
        &&& k[r].unwrap() < q.len()
        &&& q[k[r].unwrap() as int].1 == r
    }
    &&& forall|i: int| 0 <= i < u.len() ==> (#[trigger] u[i]) < k.len()
    &&& forall|i: int, j: int| 0 <= i < j < u.len() ==> u[i] != u[j]
}

/// Moving the last element into place `i` and dropping the last removes
/// one copy of element `i`.
pub proof fn lemma_swap_remove_multiset<A>(s: Seq<A>, i: int)
    requires
        0 <= i < s.len(),
    ensures
        s.update(i, s.last()).drop_last().to_multiset() == s.to_multiset().remove(s[i]),
{
    broadcast use vstd::multiset::group_multiset_axioms;

    let t = s.update(i, s.last());
    vstd::seq_lib::to_multiset_update(s, i, s.last());
    vstd::seq_lib::to_multiset_remove(t, t.len() - 1);
    assert(t.remove(t.len() - 1) =~= t.drop_last());
    assert(t[t.len() - 1] == s.last());
    assert(t.drop_last().to_multiset() =~= s.to_multiset().remove(s[i]));
}

/// The live handles (slot + 1) and the coordinate each one names.
pub open spec fn queue_view(q: Seq<(Coord, u32)>, k: Seq<Option<u32>>, u: Seq<u32>) -> Map<u32, Coord> {
    Map::new(
        |h: u32| h > 0 && slot_live(k, u, h - 1),
        |h: u32| q[k[h - 1].unwrap() as int].0,
    )
}

/// Blocks waiting for an update, in queue order. Each entry is reached
/// through a handle: handle `r + 1` names slot `r` of a slot table that
/// holds the entry's position in the queue; slots of removed entries are
/// kept for reuse.
#[derive(Debug)]
pub struct BlockUpdateQueue {
    update_queue: Vec<(Coord, u32)>,
    ref_key: Vec<Option<u32>>,
    unused_refs: Vec<u32>,
}

impl BlockUpdateQueue {
    /// The queued coordinates, in queue order.
    pub closed spec fn coords(&self) -> Seq<Coord> {
        self.update_queue@.map_values(|e: (Coord, u32)| e.0)
    }

    /// The live handles and the coordinate each one names.
    pub closed spec fn view(&self) -> Map<u32, Coord> {
        queue_view(self.update_queue@, self.ref_key@, self.unused_refs@)
    }

    /// The queue position of the entry a live handle names.
    pub closed spec fn index_of(&self, key: UpdateRef) -> int {
        self.ref_key@[key.0 - 1].unwrap() as int
    }

    /// The number of slots made so far.
    pub closed spec fn slots(&self) -> nat {
        self.ref_key@.len()
    }

    /// The handle the next [`BlockUpdateQueue::push`] hands out: the slot
    /// freed last, or else a new slot.
    pub closed spec fn next_key(&self) -> u32 {
        if self.unused_refs@.len() > 0 {
            (self.unused_refs@.last() + 1) as u32
        } else {
            (self.ref_key@.len() + 1) as u32
        }
    }

    /// A slot is free for the next push: one was freed, or a new one still
    /// has a handle that fits in `u32`.
    pub closed spec fn has_room(&self) -> bool {
        self.unused_refs@.len() > 0 || self.ref_key@.len() < u32::MAX
    }

    pub closed spec fn wf(&self) -> bool {
        queue_wf(self.update_queue@, self.ref_key@, self.unused_refs@)
    }

    /// An empty queue.
    pub fn new() -> (r: Self)
        ensures
            r.wf(),
            r.view() == Map::<u32, Coord>::empty(),
            r.coords() == Seq::<Coord>::empty(),
            r.slots() == 0,
            r.has_room(),
    {
        let r = Self { update_queue: Vec::new(), ref_key: Vec::new(), unused_refs: Vec::new() };
        assert(r.view() =~= Map::<u32, Coord>::empty());
        assert(r.coords() =~= Seq::<Coord>::empty());
        r
    }

    /// Adds `coord` at the back of the queue and returns its handle.
    pub fn push(&mut self, coord: Coord) -> (key: UpdateRef)
        requires
            old(self).wf(),
            old(self).has_room(),
        ensures
            final(self).wf(),
            key.0 == old(self).next_key(),
            key.0 != 0,
            !old(self).view().contains_key(key.0),
            final(self).view() == old(self).view().insert(key.0, coord),
            final(self).coords() == old(self).coords().push(coord),
            final(self).index_of(key) == old(self).coords().len(),
            final(self).slots() <= old(self).slots() + 1,
    {
        let ghost q0 = self.update_queue@;
        let ghost k0 = self.ref_key@;
        let ghost u0 = self.unused_refs@;
        let ref_index = match self.unused_refs.pop() {
            Some(ref_index) => ref_index,
            None => {
                let index = self.ref_key.len() as u32;
                self.ref_key.push(None);
                index
            },
        };
        let update_index = self.update_queue.len() as u32;
        self.update_queue.push((coord, ref_index));
        self.ref_key.set(ref_index as usize, Some(update_index));
        proof {
            let q = self.update_queue@;
            let k = self.ref_key@;
            let u = self.unused_refs@;
            let r0 = ref_index as int;
            assert(q == q0.push((coord, ref_index)));
            assert(r0 < k.len());
            if u0.len() > 0 {
                assert(u =~= u0.drop_last());
                assert(u0.last() == ref_index);
                assert(!u.contains(ref_index)) by {
                    if u.contains(ref_index) {
                        let i = choose|i: int| 0 <= i < u.len() && u[i] == ref_index;
                        assert(u0[i] == u0[u0.len() - 1]);
                    }
                }
                assert(!slot_live(k0, u0, r0)) by {
                    assert(u0[u0.len() - 1] == ref_index);
                }
            } else {
                assert(u =~= u0);
                assert(r0 == k0.len());
            }
            assert forall|rr: int| 0 <= rr < k.len() implies #[trigger] slot_live(k, u, rr)
                == (rr == r0 || slot_live(k0, u0, rr)) by {
                if u.contains(rr as u32) {
                    let i = choose|i: int| 0 <= i < u.len() && u[i] == rr as u32;
                    assert(u0[i] == rr as u32);
                }
                if rr != r0 && rr < k0.len() && u0.contains(rr as u32) {
                    let i = choose|i: int| 0 <= i < u0.len() && u0[i] == rr as u32;
                    assert(i != u0.len() - 1);
                    assert(u[i] == rr as u32);
                }
            }
            assert forall|e: int| 0 <= e < q.len() implies {
                let r = (#[trigger] q[e]).1 as int;
                &&& slot_live(k, u, r)
                &&& k[r] == Some(e as u32)
            } by {
                if e < q0.len() {
                    let r = q0[e].1 as int;
                    assert(slot_live(k0, u0, r));
                    assert(r != r0);
                }
            }
            assert forall|rr: int| #[trigger] slot_live(k, u, rr) implies {
                &&& k[rr] is Some
                &&& k[rr].unwrap() < q.len()
                &&& q[k[rr].unwrap() as int].1 == rr
            } by {
                if rr != r0 {
                    assert(slot_live(k0, u0, rr));
                }
            }
            assert forall|i: int, j: int| 0 <= i < j < u.len() implies u[i] != u[j] by {
                assert(u[i] == u0[i] && u[j] == u0[j]);
            }
            assert forall|i: int| 0 <= i < u.len() implies (#[trigger] u[i]) < k.len() by {
                assert(u[i] == u0[i]);
            }
            assert(queue_view(q, k, u) =~= queue_view(q0, k0, u0).insert((ref_index + 1) as u32, coord)) by {
                assert forall|h: u32| #[trigger] queue_view(q, k, u).contains_key(h)
                    == queue_view(q0, k0, u0).insert((ref_index + 1) as u32, coord).contains_key(h) by {
                    if h > 0 && h - 1 < k.len() {
                        assert(slot_live(k, u, h - 1) == (h - 1 == r0 || slot_live(k0, u0, h - 1)));
                    }
                }
                assert forall|h: u32| #[trigger] queue_view(q, k, u).contains_key(h) implies queue_view(q, k, u)[h]
                    == queue_view(q0, k0, u0).insert((ref_index + 1) as u32, coord)[h] by {
                    if h - 1 != r0 {
                        assert(slot_live(k0, u0, h - 1));
                    }
                }
            }
            assert(self.coords() =~= q0.map_values(|e: (Coord, u32)| e.0).push(coord));
        }
        UpdateRef(ref_index + 1)
    }

    /// Removes the entry a handle names: the last entry of the queue takes
    /// its place. The null handle removes nothing.
    pub fn remove(&mut self, key: UpdateRef)
        requires
            old(self).wf(),
            key.0 == 0 || old(self).view().contains_key(key.0),
        ensures
            final(self).wf(),
            final(self).view() == old(self).view().remove(key.0),
            key.0 == 0 ==> *final(self) == *old(self),
            key.0 == 0 ==> final(self).coords() == old(self).coords(),
            key.0 != 0 ==> final(self).coords() == old(self).coords().update(
                old(self).index_of(key),
                old(self).coords().last(),
            ).drop_last(),
            key.0 != 0 ==> final(self).has_room(),
            final(self).slots() == old(self).slots(),
            key.0 != 0 ==> 0 <= old(self).index_of(key) < old(self).coords().len() && old(self).coords()[old(self).index_of(
                key,
            )] == old(self).view()[key.0],
            key.0 != 0 ==> final(self).coords().to_multiset() == old(self).coords().to_multiset().remove(
                old(self).view()[key.0],
            ),
    {
        if key.null() {
            proof {
                assert(self.view().remove(key.0) =~= self.view());
            }
            return;
        }
        let ghost q0 = self.update_queue@;
        let ghost k0 = self.ref_key@;
        let ghost u0 = self.unused_refs@;
        let ghost c0 = self.coords();
        let slot = key.0 - 1;
        proof {
            assert(slot_live(k0, u0, slot as int));
        }
        let ref_index = match self.ref_key[slot as usize] {
            Some(i) => i,
            None => {
                assert(false);
                0
            },
        };
        let ref_index = ref_index as usize;
        let ghost p = ref_index as int;
        let ghost last = q0.len() - 1;
        proof {
            lemma_swap_remove_multiset(c0, p);
        }
        self.update_queue.swap_remove(ref_index);
        self.unused_refs.push(slot);
        proof {
            let u = self.unused_refs@;
            assert(u == u0.push(slot));
            assert(q0[p].1 == slot);
            assert(!u0.contains(slot));
            assert forall|rr: int| 0 <= rr < k0.len() implies #[trigger] slot_live(k0, u, rr)
                == (rr != slot && slot_live(k0, u0, rr)) by {
                if u.contains(rr as u32) && rr != slot {
                    let i = choose|i: int| 0 <= i < u.len() && u[i] == rr as u32;
                    assert(i != u0.len());
                    assert(u0[i] == rr as u32);
                }
                if u0.contains(rr as u32) {
                    let i = choose|i: int| 0 <= i < u0.len() && u0[i] == rr as u32;
                    assert(u[i] == rr as u32);
                }
                assert(u[u0.len() as int] == slot);
            }
            assert forall|i: int, j: int| 0 <= i < j < u.len() implies u[i] != u[j] by {
                if j == u0.len() {
                    assert(u0.contains(u0[i]));
                } else {
                    assert(u[i] == u0[i] && u[j] == u0[j]);
                }
            }
            assert forall|i: int| 0 <= i < u.len() implies (#[trigger] u[i]) < k0.len() by {
                if i < u0.len() {
                    assert(u[i] == u0[i]);
                }
            }
            assert(c0.update(p, c0.last()).drop_last() =~= self.coords());
        }
        if ref_index == self.update_queue.len() {
            proof {
                let q = self.update_queue@;
                let u = self.unused_refs@;
                assert forall|e: int| 0 <= e < q.len() implies {
                    let r = (#[trigger] q[e]).1 as int;
                    &&& slot_live(k0, u, r)
                    &&& k0[r] == Some(e as u32)
                } by {
                    assert(q[e] == q0[e]);
                    let r = q0[e].1 as int;
                    assert(slot_live(k0, u0, r));
                    assert(k0[r] == Some(e as u32));
                    assert(r != slot);
                }
                assert forall|rr: int| #[trigger] slot_live(k0, u, rr) implies {
                    &&& k0[rr] is Some
                    &&& k0[rr].unwrap() < q.len()
                    &&& q[k0[rr].unwrap() as int].1 == rr
                } by {
                    assert(slot_live(k0, u0, rr));
                    let pos = k0[rr].unwrap() as int;
                    assert(q0[pos].1 == rr);
                    assert(pos != p);
                }
                assert(queue_view(q, k0, u) =~= queue_view(q0, k0, u0).remove(key.0)) by {
                    assert forall|h: u32| #[trigger] queue_view(q, k0, u).contains_key(h)
                        == queue_view(q0, k0, u0).remove(key.0).contains_key(h) by {
                        if h > 0 && h - 1 < k0.len() {
                            assert(slot_live(k0, u, h - 1) == (h - 1 != slot && slot_live(k0, u0, h - 1)));
                        }
                    }
                    assert forall|h: u32| #[trigger] queue_view(q, k0, u).contains_key(h)
                        implies queue_view(q, k0, u)[h] == queue_view(q0, k0, u0)[h] by {
                        assert(slot_live(k0, u0, h - 1));
                        let pos = k0[h - 1].unwrap() as int;
                        assert(q0[pos].1 == h - 1);
                        assert(pos != p);
                    }
                }
            }
            return;
        }
        let fix_index = self.update_queue[ref_index].1;
        self.ref_key.set(fix_index as usize, Some(ref_index as u32));
        proof {
            let q = self.update_queue@;
            let k = self.ref_key@;
            let u = self.unused_refs@;
            let f = fix_index as int;
            assert(q[p] == q0[last]);
            assert(slot_live(k0, u0, f));
            assert(k0[f] == Some(last as u32));
            assert(f != slot);
            assert forall|rr: int| 0 <= rr < k.len() implies #[trigger] slot_live(k, u, rr)
                == slot_live(k0, u, rr) by {
            }
            assert forall|e: int| 0 <= e < q.len() implies {
                let r = (#[trigger] q[e]).1 as int;
                &&& slot_live(k, u, r)
                &&& k[r] == Some(e as u32)
            } by {
                assert(slot_live(k, u, f) == slot_live(k0, u, f));
                if e != p {
                    assert(q[e] == q0[e]);
                    let r = q0[e].1 as int;
                    assert(slot_live(k0, u0, r));
                    assert(k0[r] == Some(e as u32));
                    assert(r != f);
                    assert(r != slot);
                    assert(slot_live(k, u, r) == slot_live(k0, u, r));
                }
            }
            assert forall|rr: int| #[trigger] slot_live(k, u, rr) implies {
                &&& k[rr] is Some
                &&& k[rr].unwrap() < q.len()
                &&& q[k[rr].unwrap() as int].1 == rr
            } by {
                assert(slot_live(k0, u, rr));
                assert(slot_live(k0, u0, rr));
                if rr != f {
                    let pos = k0[rr].unwrap() as int;
                    assert(q0[pos].1 == rr);
                    assert(pos != p);
                    assert(pos != last);
                }
            }
            assert(queue_view(q, k, u) =~= queue_view(q0, k0, u0).remove(key.0)) by {
                assert forall|h: u32| #[trigger] queue_view(q, k, u).contains_key(h)
                    == queue_view(q0, k0, u0).remove(key.0).contains_key(h) by {
                    if h > 0 && h - 1 < k0.len() {
                        assert(slot_live(k, u, h - 1) == slot_live(k0, u, h - 1));
                        assert(slot_live(k0, u, h - 1) == (h - 1 != slot && slot_live(k0, u0, h - 1)));
                    }
                }
                assert forall|h: u32| #[trigger] queue_view(q, k, u).contains_key(h)
                    implies queue_view(q, k, u)[h] == queue_view(q0, k0, u0)[h] by {
                    let rr = h - 1;
                    assert(slot_live(k, u, rr) == slot_live(k0, u, rr));
                    assert(slot_live(k0, u0, rr));
                    if rr != f {
                        let pos = k0[rr].unwrap() as int;
                        assert(q0[pos].1 == rr);
                        assert(pos != p);
                        assert(pos != last);
                    }
                }
            }
        }
    }

    /// The queued coordinates, in queue order.
    pub fn iter(&self) -> (r: Vec<Coord>)
        ensures
            r@ == self.coords(),
    {
        let mut result: Vec<Coord> = Vec::new();
        let mut i: usize = 0;
        while i < self.update_queue.len()
            invariant
                i <= self.update_queue@.len(),
                result@ == self.update_queue@.take(i as int).map_values(|e: (Coord, u32)| e.0),
            decreases self.update_queue@.len() - i,
        {
            result.push(self.update_queue[i].0);
            proof {
                assert(self.update_queue@.take(i + 1).map_values(|e: (Coord, u32)| e.0)
                    =~= self.update_queue@.take(i as int).map_values(|e: (Coord, u32)| e.0).push(self.update_queue@[i as int].0));
            }
            i = i + 1;
        }
        proof {
            assert(self.update_queue@.take(self.update_queue@.len() as int) =~= self.update_queue@);
        }
        result
    }
}

impl Default for BlockUpdateQueue {
    /// An empty queue.
    fn default() -> (r: Self)
        ensures
            r.wf(),
            r.view() == Map::<u32, Coord>::empty(),
            r.coords() == Seq::<Coord>::empty(),
            r.has_room(),
    {
        Self::new()
    }
}

/// Removing the entry that a push added gives back the handles and
/// coordinates of before the push.
pub proof fn law_remove_undoes_push(
    before: BlockUpdateQueue,
    pushed: BlockUpdateQueue,
    removed: BlockUpdateQueue,
    key: UpdateRef,
    coord: Coord,
)
    requires
        !before.view().contains_key(key.0),
        pushed.view() == before.view().insert(key.0, coord),
        removed.view() == pushed.view().remove(key.0),
    ensures
        removed.view() == before.view(),
{
    assert(removed.view() =~= before.view());
}

/// Each queued block has exactly one live handle: there are as many
/// handles as queue entries.
pub proof fn law_one_handle_per_entry(queue: &BlockUpdateQueue)
    requires
        queue.wf(),
    ensures
        queue.view().dom().finite(),
        queue.view().dom().len() == queue.coords().len(),
{
    queue.lemma_handle_count();
}

impl BlockUpdateQueue {
    proof fn lemma_handle_count(&self)
        requires
            self.wf(),
        ensures
            self.view().dom().finite(),
            self.view().dom().len() == self.coords().len(),
    {
        let q = self.update_queue@;
        let k = self.ref_key@;
        let u = self.unused_refs@;
        let n = k.len() as int;
        let range = vstd::set_lib::set_int_range(0, n);
        vstd::set_lib::lemma_int_range(0, n);
        assert(u.no_duplicates());
        u.unique_seq_to_set();
        let to_int = |x: u32| x as int;
        let freed = u.to_set().map(to_int);
        assert(vstd::relations::injective_on(to_int, u.to_set()));
        vstd::seq_lib::seq_to_set_is_finite(u);
        vstd::set_lib::lemma_map_size(u.to_set(), freed, to_int);
        assert(freed.subset_of(range)) by {
            assert forall|r: int| freed.contains(r) implies range.contains(r) by {
                let x = choose|x: u32| u.to_set().contains(x) && to_int(x) == r;
                assert(u.contains(x));
                let i = choose|i: int| 0 <= i < u.len() && u[i] == x;
                assert(u[i] < k.len());
            }
        }
        let live = range.difference(freed);
        vstd::set_lib::lemma_set_difference_len(range, freed);
        assert(range.intersect(freed) =~= freed);
        assert(live.len() == n - u.len());
        let to_key = |r: int| (r + 1) as u32;
        assert(vstd::relations::injective_on(to_key, live));
        let dom = self.view().dom();
        assert(dom =~= live.map(to_key)) by {
            assert forall|h: u32| #[trigger] dom.contains(h) implies live.map(to_key).contains(h) by {
                let r = h - 1;
                assert(slot_live(k, u, r));
                assert(!freed.contains(r)) by {
                    if freed.contains(r) {
                        let x = choose|x: u32| u.to_set().contains(x) && to_int(x) == r;
                        assert(x == r as u32);
                    }
                }
                assert(live.contains(r) && to_key(r) == h);
            }
            assert forall|h: u32| #[trigger] live.map(to_key).contains(h) implies dom.contains(h) by {
                let r = choose|r: int| live.contains(r) && to_key(r) == h;
                assert(0 <= r < n);
                assert(h == r + 1);
                assert(!u.contains(r as u32)) by {
                    if u.contains(r as u32) {
                        assert(u.to_set().contains(r as u32));
                        assert(freed.contains(to_int(r as u32)));
                    }
                }
            }
        }
        vstd::set_lib::lemma_map_size(live, dom, to_key);
    }
}

} // verus!
