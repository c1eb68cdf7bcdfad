//! Per-block data of a section: up to 4096 values, each reached through a
//! small handle.
use vstd::prelude::*;

verus! {

/// A handle to a value in a [`BlockDataContainer`]; 0 is the null handle.
#[derive(Debug, Default, Clone, Copy, PartialEq, Eq, PartialOrd, Ord, Hash, Structural)]
pub struct BlockDataRef(pub u16);

impl BlockDataRef {
    /// This is the null handle.
    pub fn null(self) -> (r: bool)
        ensures
            r == (self.0 == 0),
    {
        self.0 == 0
    }
}

/// An injective map from `0 .. n` into `0 .. m` needs `n <= m`.
proof fn lemma_injective_bound(f: spec_fn(int) -> int, n: int, m: int)
    requires
        0 <= n,
        0 <= m,
        forall|a: int| 0 <= a < n ==> 0 <= #[trigger] f(a) < m,
        forall|a: int, b: int| 0 <= a < b < n ==> #[trigger] f(a) != #[trigger] f(b),
    ensures
        n <= m,
    decreases n,
{
    if n > 0 {
        let top = f(n - 1);
        let g = |a: int| if f(a) > top { f(a) - 1 } else { f(a) };
        assert forall|a: int| 0 <= a < n - 1 implies 0 <= #[trigger] g(a) < m - 1 by {
            assert(f(a) != top);
        }
        assert forall|a: int, b: int| 0 <= a < b < n - 1 implies #[trigger] g(a) != #[trigger] g(b) by {
            assert(f(a) != top && f(b) != top);
        }
        assert(0 <= top < m);
        lemma_injective_bound(g, n - 1, m - 1);
    }
}

/// `n` distinct values below `n` are all the values below `n`.
proof fn lemma_distinct_full(u: Seq<u16>, n: int)
    requires
        u.len() == n,
        forall|i: int| 0 <= i < n ==> (#[trigger] u[i]) < n,
        forall|i: int, j: int| 0 <= i < j < n ==> u[i] != u[j],
    ensures
        forall|r: u16| r < n ==> #[trigger] u.contains(r),
{
    assert forall|r: u16| r < n implies #[trigger] u.contains(r) by {
        if !u.contains(r) {
            let f = |a: int| if u[a] > r { u[a] - 1 } else { u[a] as int };
            assert forall|a: int| 0 <= a < n implies 0 <= #[trigger] f(a) < n - 1 by {
                assert(u[a] != r);
            }
            assert forall|a: int, b: int| 0 <= a < b < n implies #[trigger] f(a) != #[trigger] f(b) by {
                assert(u[a] != r && u[b] != r);
            }
            lemma_injective_bound(f, n, n - 1);
        }
    }
}

/// Up to 4096 values (one per block of a section). Handle `i + 1` names
/// slot `i`; emptied slots are kept for reuse until all are empty.
pub struct BlockDataContainer<T> {
    data: Vec<Option<T>>,
    unused: Vec<u16>,
}

impl<T> BlockDataContainer<T> {
    /// The live handles and the value each one names.
    pub closed spec fn view(&self) -> Map<u16, T> {
        Map::new(
            |k: u16| 0 < k <= self.data@.len() && self.data@[k - 1] is Some,
            |k: u16| self.data@[k - 1]->0,
        )
    }

    /// The number of slots made so far.
    pub closed spec fn slots(&self) -> nat {
        self.data@.len()
    }

    /// The handle the next insert hands out: the slot emptied last, or else
    /// a new slot.
    pub closed spec fn next_key(&self) -> u16 {
        if self.unused@.len() > 0 {
            (self.unused@.last() + 1) as u16
        } else {
            (self.data@.len() + 1) as u16
        }
    }

    /// A slot is free for the next insert.
    pub closed spec fn has_room(&self) -> bool {
        self.unused@.len() > 0 || self.data@.len() < 4096
    }

    /// At most 4096 slots; a slot is empty exactly when it is listed once
    /// among the unused slots.
    pub closed spec fn wf(&self) -> bool {
        &&& self.data@.len() <= 4096
        &&& forall|i: int| 0 <= i < self.unused@.len() ==> (#[trigger] self.unused@[i]) < self.data@.len()
        &&& forall|i: int, j: int| 0 <= i < j < self.unused@.len() ==> self.unused@[i] != self.unused@[j]
        &&& forall|r: int| 0 <= r < self.data@.len() ==> (#[trigger] self.data@[r] is None <==> self.unused@.contains(r as u16))
    }

    /// An empty container.
    pub fn new() -> (r: Self)
        ensures
            r.wf(),
            r.view() == Map::<u16, T>::empty(),
            r.slots() == 0,
            r.has_room(),
    {
        let r = Self { data: Vec::new(), unused: Vec::new() };
        assert(r.view() =~= Map::<u16, T>::empty());
        r
    }

    /// Stores `value` and returns its handle.
    pub fn insert(&mut self, value: T) -> (key: BlockDataRef)
        requires
            old(self).wf(),
            old(self).has_room(),
        ensures
            final(self).wf(),
            key.0 == old(self).next_key(),
            key.0 != 0,
            !old(self).view().contains_key(key.0),
            final(self).view() == old(self).view().insert(key.0, value),
    {
        let ghost d0 = self.data@;
        let ghost u0 = self.unused@;
        let ghost v0 = self.view();
        match self.unused.pop() {
            Some(index) => {
                proof {
                    assert(u0.last() == index);
                    assert(u0.contains(index));
                    assert(d0[index as int] is None);
                }
                self.data.set(index as usize, Some(value));
                proof {
                    let u = self.unused@;
                    assert(u =~= u0.drop_last());
                    assert forall|r: int| 0 <= r < self.data@.len() implies (#[trigger] self.data@[r] is None
                        <==> self.unused@.contains(r as u16)) by {
                        if r == index {
                            if u.contains(index) {
                                let i = choose|i: int| 0 <= i < u.len() && u[i] == index;
                                assert(u0[i] == u0[u0.len() - 1]);
                            }
                        } else {
                            if u0.contains(r as u16) {
                                let i = choose|i: int| 0 <= i < u0.len() && u0[i] == r as u16;
                                assert(i != u0.len() - 1);
                                assert(u[i] == r as u16);
                            }
                            if u.contains(r as u16) {
                                let i = choose|i: int| 0 <= i < u.len() && u[i] == r as u16;
                                assert(u0[i] == r as u16);
                            }
                        }
                    }
                    assert forall|i: int, j: int| 0 <= i < j < u.len() implies u[i] != u[j] by {
                        assert(u[i] == u0[i] && u[j] == u0[j]);
                    }
                    assert forall|i: int| 0 <= i < u.len() implies (#[trigger] u[i]) < self.data@.len() by {
                        assert(u[i] == u0[i]);
                    }
                    assert(self.view() =~= v0.insert((index + 1) as u16, value));
                }
                BlockDataRef(index + 1)
            },
            None => {
                let index = self.data.len() as u16;
                self.data.push(Some(value));
                proof {
                    assert(self.unused@ == u0);
                    assert forall|r: int| 0 <= r < self.data@.len() implies (#[trigger] self.data@[r] is None
                        <==> self.unused@.contains(r as u16)) by {
                        if r < d0.len() {
                            assert(self.data@[r] == d0[r]);
                        }
                    }
                    assert(self.view() =~= v0.insert((index + 1) as u16, value));
                }
                BlockDataRef(index + 1)
            },
        }
    }

    /// Takes the value a handle names out of the container (`None` for the
    /// null handle). When no value is left, the storage is released.
    pub fn delete(&mut self, dataref: BlockDataRef) -> (r: Option<T>)
        requires
            old(self).wf(),
            dataref.0 == 0 || old(self).view().contains_key(dataref.0),
        ensures
            final(self).wf(),
            final(self).view() == old(self).view().remove(dataref.0),
            r == if dataref.0 == 0 {
                None
            } else {
                Some(old(self).view()[dataref.0])
            },
            dataref.0 != 0 ==> final(self).has_room(),
            dataref.0 == 0 ==> *final(self) == *old(self),
    {
        if dataref.null() {
            proof {
                assert(self.view().remove(dataref.0) =~= self.view());
            }
            return None;
        }
        let ghost d0 = self.data@;
        let ghost u0 = self.unused@;
        let ghost v0 = self.view();
        let index = dataref.0 - 1;
        let mut slot: Option<T> = None;
        self.data.set_and_swap(index as usize, &mut slot);
        self.unused.push(index);
        proof {
            let u = self.unused@;
            let d = self.data@;
            assert(u == u0.push(index));
            assert(d == d0.update(index as int, None));
            assert(!u0.contains(index));
            assert forall|r: int| 0 <= r < d.len() implies (#[trigger] d[r] is None <==> u.contains(r as u16)) by {
                if u0.contains(r as u16) {
                    let i = choose|i: int| 0 <= i < u0.len() && u0[i] == r as u16;
                    assert(u[i] == r as u16);
                }
                if u.contains(r as u16) && r != index {
                    let i = choose|i: int| 0 <= i < u.len() && u[i] == r as u16;
                    assert(i != u0.len());
                    assert(u0[i] == r as u16);
                }
                assert(u[u0.len() as int] == index);
            }
            assert forall|i: int, j: int| 0 <= i < j < u.len() implies u[i] != u[j] by {
                if j == u0.len() {
                    assert(u0.contains(u0[i]));
                } else {
                    assert(u[i] == u0[i] && u[j] == u0[j]);
                }
            }
            assert forall|i: int| 0 <= i < u.len() implies (#[trigger] u[i]) < d.len() by {
                if i < u0.len() {
                    assert(u[i] == u0[i]);
                }
            }
            assert(self.view() =~= v0.remove(dataref.0));
        }
        if self.unused.len() == self.data.len() {
            proof {
                lemma_distinct_full(self.unused@, self.data@.len() as int);
                assert(self.view() =~= Map::<u16, T>::empty()) by {
                    assert forall|k: u16| !#[trigger] self.view().contains_key(k) by {
                        if 0 < k <= self.data@.len() {
                            assert(self.unused@.contains((k - 1) as u16));
                        }
                    }
                }
            }
            self.clear();
        }
        slot
    }

    /// The value a handle names (`None` for the null handle).
    pub fn get(&self, dataref: BlockDataRef) -> (r: Option<&T>)
        requires
            self.wf(),
            dataref.0 == 0 || self.view().contains_key(dataref.0),
        ensures
            r == if dataref.0 == 0 {
                None
            } else {
                Some(&self.view()[dataref.0])
            },
    {
        if dataref.null() {
            return None;
        }
        let index = dataref.0 - 1;
        match &self.data[index as usize] {
            Some(value) => Some(value),
            None => {
                assert(false);
                None
            },
        }
    }

    /// The value a handle names, to change in place (`None` for the null
    /// handle).
    pub fn get_mut(&mut self, dataref: BlockDataRef) -> (r: Option<&mut T>)
        requires
            old(self).wf(),
            dataref.0 == 0 || old(self).view().contains_key(dataref.0),
        ensures
            dataref.0 == 0 ==> r is None && *final(self) == *old(self),
            dataref.0 != 0 ==> (r matches Some(v) && *v == old(self).view()[dataref.0]
                && final(self).view() == old(self).view().insert(dataref.0, *final(v))),
            final(self).wf(),
            final(self).has_room() == old(self).has_room(),
    {
        if dataref.null() {
            return None;
        }
        let index = dataref.0 - 1;
        match &mut self.data[index as usize] {
            Some(value) => Some(value),
            None => None,
        }
    }

    /// Removes every value and releases the storage.
    pub fn clear(&mut self)
        ensures
            final(self).wf(),
            final(self).view() == Map::<u16, T>::empty(),
            final(self).slots() == 0,
            final(self).has_room(),
    {
        self.data = Vec::new();
        self.unused = Vec::new();
        assert(self.view() =~= Map::<u16, T>::empty());
    }
}

/// Deleting the value that an insert stored gives back that value and the
/// handles and values of before the insert.
pub proof fn law_delete_undoes_insert<T>(
    before: BlockDataContainer<T>,
    inserted: BlockDataContainer<T>,
    deleted: BlockDataContainer<T>,
    key: BlockDataRef,
    value: T,
)
    requires
        key.0 != 0,
        !before.view().contains_key(key.0),
        inserted.view() == before.view().insert(key.0, value),
        deleted.view() == inserted.view().remove(key.0),
    ensures
        deleted.view() == before.view(),
        inserted.view()[key.0] == value,
{
    assert(deleted.view() =~= before.view());
}

} // verus!
