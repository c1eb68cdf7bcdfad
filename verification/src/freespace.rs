//! What allocation and deallocation do to the free blocks of a region file.
//!
//! A manager made by [`SectorManager::new`](crate::sectormanager::SectorManager::new)
//! and changed only by allocation and deallocation keeps its free ranges
//! apart: no two unused ranges overlap or touch, and each one ends before
//! the end range begins. Under that invariant an allocation takes blocks
//! that were free and leaves them used, and a deallocation of a used range
//! makes exactly its blocks free again.
use vstd::prelude::*;
use vstd::multiset::Multiset;
use crate::sectormanager::{
    first_index, fits, is_first, seq_swap_remove, sector_size, spec_alloc_start, spec_allocate,
    spec_merge_free, spec_release, spec_required, spec_sector_offset, ends_at, starts_at,
    ManagedSector,
};
use crate::sectoroffset::{spec_block_count, BlockSize};
use crate::update::lemma_swap_remove_multiset;

verus! {

/// Block `b` lies in range `s`.
pub open spec fn in_range(s: ManagedSector, b: int) -> bool {
    s.start <= b < s.end
}

/// Block `b` lies in one of the ranges of `ms`.
pub open spec fn ms_covers(ms: Multiset<ManagedSector>, b: int) -> bool {
    exists|x: ManagedSector| #[trigger] ms.count(x) > 0 && in_range(x, b)
}

/// Block `b` is free: it lies in an unused range or in the end range.
pub open spec fn is_free(u: Seq<ManagedSector>, end: ManagedSector, b: int) -> bool {
    ms_covers(u.to_multiset(), b) || in_range(end, b)
}

/// The ranges of `ms` are apart: each occurs once, is not empty, starts at
/// block 3 or later and ends before the end range starts, and no two of
/// them overlap or touch; the end range starts at block 3 or later.
pub open spec fn ms_apart(ms: Multiset<ManagedSector>, end: ManagedSector) -> bool {
    &&& 3 <= end.start <= end.end
    &&& forall|x: ManagedSector| #[trigger] ms.count(x) > 0 ==> {
        &&& ms.count(x) == 1
        &&& 3 <= x.start < x.end < end.start
    }
    &&& forall|x: ManagedSector, y: ManagedSector|
        #[trigger] ms.count(x) > 0 && #[trigger] ms.count(y) > 0 && x != y ==> x.end < y.start || y.end < x.start
}

/// The free ranges of a manager are apart (see [`ms_apart`]).
pub open spec fn free_apart(u: Seq<ManagedSector>, end: ManagedSector) -> bool {
    ms_apart(u.to_multiset(), end)
}

/// A manager just made by
/// [`SectorManager::new`](crate::sectormanager::SectorManager::new) (no
/// unused range, the end range from block 3 on) has its free ranges apart,
/// and every block from 3 on is free.
pub proof fn law_new_manager_apart()
    ensures
        free_apart(Seq::empty(), ManagedSector { start: 3, end: u32::MAX }),
        forall|b: int| 3 <= b < u32::MAX ==> is_free(Seq::empty(), ManagedSector { start: 3, end: u32::MAX }, b),
{
    broadcast use vstd::multiset::group_multiset_axioms;

    assert(Seq::<ManagedSector>::empty().to_multiset() =~= Multiset::empty()) by {
        vstd::seq_lib::to_multiset_len(Seq::<ManagedSector>::empty());
    }
}

/// Taking one range out of ranges that are apart leaves exactly the blocks
/// it covered uncovered.
proof fn lemma_covers_remove(ms: Multiset<ManagedSector>, end: ManagedSector, y: ManagedSector, b: int)
    requires
        ms_apart(ms, end),
        ms.count(y) > 0,
    ensures
        ms_covers(ms.remove(y), b) == (ms_covers(ms, b) && !in_range(y, b)),
        ms_apart(ms.remove(y), end),
{
    broadcast use vstd::multiset::group_multiset_axioms;

    if ms_covers(ms.remove(y), b) {
        let x = choose|x: ManagedSector| #[trigger] ms.remove(y).count(x) > 0 && in_range(x, b);
        assert(x != y);
        assert(ms.count(x) > 0);
    }
    if ms_covers(ms, b) && !in_range(y, b) {
        let x = choose|x: ManagedSector| #[trigger] ms.count(x) > 0 && in_range(x, b);
        assert(ms.remove(y).count(x) > 0);
    }
    let r = ms.remove(y);
    assert forall|x: ManagedSector, z: ManagedSector|
        #[trigger] r.count(x) > 0 && #[trigger] r.count(z) > 0 && x != z implies x.end < z.start || z.end < x.start by {
        assert(ms.count(x) > 0 && ms.count(z) > 0);
    }
    assert forall|x: ManagedSector| #[trigger] r.count(x) > 0 implies r.count(x) == 1 && 3 <= x.start < x.end < end.start by {
        assert(ms.count(x) > 0);
    }
}

/// Adding a range covers its blocks as well.
proof fn lemma_covers_insert(ms: Multiset<ManagedSector>, m: ManagedSector, b: int)
    ensures
        ms_covers(ms.insert(m), b) == (ms_covers(ms, b) || in_range(m, b)),
{
    broadcast use vstd::multiset::group_multiset_axioms;

    if ms_covers(ms.insert(m), b) {
        let x = choose|x: ManagedSector| #[trigger] ms.insert(m).count(x) > 0 && in_range(x, b);
        if x != m {
            assert(ms.count(x) > 0);
        }
    }
    if ms_covers(ms, b) {
        let x = choose|x: ManagedSector| #[trigger] ms.count(x) > 0 && in_range(x, b);
        assert(ms.insert(m).count(x) > 0);
    }
    if in_range(m, b) {
        assert(ms.insert(m).count(m) > 0);
    }
}

/// Scanning from `k` finds a first index for any predicate.
proof fn lemma_first_exists(s: Seq<ManagedSector>, p: spec_fn(int, ManagedSector) -> bool, k: int)
    requires
        0 <= k <= s.len(),
        forall|j: int| 0 <= j < k ==> !p(j, #[trigger] s[j]),
    ensures
        is_first(s, p, first_index(s, p)),
    decreases s.len() - k,
{
    if k == s.len() {
        assert(is_first(s, p, k));
    } else if p(k, s[k]) {
        assert(is_first(s, p, k));
    } else {
        lemma_first_exists(s, p, k + 1);
    }
}

/// Some block size holds `n` blocks when `n` is at most 8033, so the
/// smallest one does.
proof fn lemma_required_exists(n: int, k: int)
    requires
        n <= 8033,
        0 <= k <= 255,
        forall|x: u8| x < k ==> #[trigger] spec_block_count(BlockSize(x)) < n,
    ensures
        spec_block_count(spec_required(n)) >= n,
    decreases 255 - k,
{
    let b = BlockSize(k as u8);
    if spec_block_count(b) >= n {
        assert(spec_block_count(b) >= n && forall|x: u8| x < b.0 ==> spec_block_count(BlockSize(x)) < n);
    } else {
        if k == 255 {
            crate::sectoroffset::lemma_block_count_bound(255);
        }
        assert forall|x: u8| x < k + 1 implies #[trigger] spec_block_count(BlockSize(x)) < n by {
            if x == k {
            }
        }
        lemma_required_exists(n, k + 1);
    }
}

/// A range of a sequence is one of its elements.
proof fn lemma_index_counted(u: Seq<ManagedSector>, i: int)
    requires
        0 <= i < u.len(),
    ensures
        u.to_multiset().count(u[i]) > 0,
{
    vstd::seq_lib::to_multiset_contains(u, u[i]);
    assert(u.contains(u[i]));
}

/// A counted range sits at some index of the sequence.
proof fn lemma_counted_index(u: Seq<ManagedSector>, x: ManagedSector) -> (j: int)
    requires
        u.to_multiset().count(x) > 0,
    ensures
        0 <= j < u.len(),
        u[j] == x,
{
    vstd::seq_lib::to_multiset_contains(u, x);
    choose|j: int| 0 <= j < u.len() && u[j] == x
}

/// Taking `c` blocks from the front of unused range `i` when blocks `s ..
/// s + c` were free: the free blocks after the step (`u2`, `e2`) are the
/// ones before, less those.
pub open spec fn takes_blocks(u: Seq<ManagedSector>, end: ManagedSector, u2: Seq<ManagedSector>, e2: ManagedSector, s: int, c: int) -> bool {
    &&& forall|b: int| s <= b < s + c ==> is_free(u, end, b)
    &&& forall|b: int| #[trigger] is_free(u2, e2, b) == (is_free(u, end, b) && !(s <= b < s + c))
    &&& free_apart(u2, e2)
}

/// Allocation from an unused range large enough.
proof fn lemma_take_from_unused(u: Seq<ManagedSector>, end: ManagedSector, i: int, c: int)
    requires
        free_apart(u, end),
        0 <= i < u.len(),
        1 <= c <= sector_size(u[i]),
    ensures
        takes_blocks(
            u,
            end,
            if sector_size(u[i]) == c {
                seq_swap_remove(u, i)
            } else {
                u.update(i, ManagedSector { start: (u[i].start + c) as u32, end: u[i].end })
            },
            end,
            u[i].start as int,
            c,
        ),
{
    broadcast use vstd::multiset::group_multiset_axioms;

    let ms = u.to_multiset();
    let x = u[i];
    let s = x.start as int;
    lemma_index_counted(u, i);
    assert forall|b: int| s <= b < s + c implies is_free(u, end, b) by {
        assert(ms.count(x) > 0 && in_range(x, b));
    }
    lemma_covers_remove(ms, end, x, 0);
    let m1 = ms.remove(x);
    if sector_size(x) == c {
        let u2 = seq_swap_remove(u, i);
        lemma_swap_remove_multiset(u, i);
        assert(u2.to_multiset() == m1);
        assert forall|b: int| #[trigger] is_free(u2, end, b) == (is_free(u, end, b) && !(s <= b < s + c)) by {
            lemma_covers_remove(ms, end, x, b);
        }
    } else {
        let rr = ManagedSector { start: (x.start + c) as u32, end: x.end };
        let u2 = u.update(i, rr);
        vstd::seq_lib::to_multiset_update(u, i, rr);
        assert(u2.to_multiset() =~= m1.insert(rr));
        assert forall|b: int| #[trigger] is_free(u2, end, b) == (is_free(u, end, b) && !(s <= b < s + c)) by {
            lemma_covers_remove(ms, end, x, b);
            lemma_covers_insert(m1, rr, b);
            if in_range(rr, b) {
                assert(ms.count(x) > 0 && in_range(x, b));
            }
        }
        let m2 = m1.insert(rr);
        assert forall|y: ManagedSector| #[trigger] m1.count(y) > 0 implies y != rr && (y.end < rr.start || rr.end < y.start) by {
            assert(ms.count(y) > 0 && y != x);
        }
        assert forall|y: ManagedSector| #[trigger] m2.count(y) > 0 implies m2.count(y) == 1 && 3 <= y.start < y.end < end.start by {
            if y != rr {
                assert(m1.count(y) > 0);
            } else {
                assert(m1.count(rr) == 0);
            }
        }
        assert forall|y: ManagedSector, z: ManagedSector|
            #[trigger] m2.count(y) > 0 && #[trigger] m2.count(z) > 0 && y != z implies y.end < z.start || z.end < y.start by {
            if y != rr && z != rr {
                assert(m1.count(y) > 0 && m1.count(z) > 0);
            } else if y == rr {
                assert(m1.count(z) > 0);
            } else {
                assert(m1.count(y) > 0);
            }
        }
    }
}

/// Allocation from the front of the end range.
proof fn lemma_take_from_end(u: Seq<ManagedSector>, end: ManagedSector, c: int)
    requires
        free_apart(u, end),
        1 <= c,
        end.start + c <= end.end,
    ensures
        takes_blocks(u, end, u, ManagedSector { start: (end.start + c) as u32, end: end.end }, end.start as int, c),
{
    let ms = u.to_multiset();
    let e2 = ManagedSector { start: (end.start + c) as u32, end: end.end };
    let s = end.start as int;
    assert forall|b: int| #[trigger] is_free(u, e2, b) == (is_free(u, end, b) && !(s <= b < s + c)) by {
        if ms_covers(ms, b) {
            let x = choose|x: ManagedSector| #[trigger] ms.count(x) > 0 && in_range(x, b);
            assert(ms.count(x) > 0);
        }
    }
    assert forall|b: int| s <= b < s + c implies is_free(u, end, b) by {
        assert(in_range(end, b));
    }
}

/// Allocating `n` blocks (1 to 8033) from free ranges that are apart takes
/// a sector of at least `n` blocks, starting at block 3 or later, whose
/// blocks were all free; afterwards exactly those blocks are no longer
/// free, and the free ranges are still apart. On a manager with no unused
/// range, such as one just made by
/// [`SectorManager::new`](crate::sectormanager::SectorManager::new), the
/// sector starts where the end range starts (block 3 on a new manager).
pub proof fn law_allocate_takes_free_blocks(u: Seq<ManagedSector>, end: ManagedSector, n: int)
    requires
        free_apart(u, end),
        1 <= n <= 8033,
        first_index(u, fits(spec_block_count(spec_required(n)))) == u.len()
            ==> end.start + spec_block_count(spec_required(n)) <= end.end,
    ensures
        ({
            let (o, u2, e2) = spec_allocate(u, end, n);
            let size = spec_required(n);
            let c = spec_block_count(size);
            let s = spec_alloc_start(u, end, n);
            &&& c >= n
            &&& o == spec_sector_offset(size, s)
            &&& s >= 3
            &&& u.len() == 0 ==> s == end.start
            &&& takes_blocks(u, end, u2, e2, s as int, c)
        }),
{
    lemma_required_exists(n, 0);
    let c = spec_block_count(spec_required(n));
    lemma_first_exists(u, fits(c), 0);
    let i = first_index(u, fits(c));
    if i < u.len() {
        lemma_index_counted(u, i);
        lemma_take_from_unused(u, end, i, c);
    } else {
        lemma_take_from_end(u, end, c);
    }
}

/// Giving range `s` back to free ranges `u`, `end` gives `u2`, `e2`: the
/// free blocks after the step are the ones before and those of `s`, and
/// the free ranges are still apart.
pub open spec fn gives_back(u: Seq<ManagedSector>, end: ManagedSector, u2: Seq<ManagedSector>, e2: ManagedSector, s: ManagedSector) -> bool {
    &&& forall|b: int| #[trigger] is_free(u2, e2, b) == (is_free(u, end, b) || in_range(s, b))
    &&& free_apart(u2, e2)
}

/// What deallocation finds next to a used range `s`: the only unused range
/// that ends where `s` starts is the one at `l` (when `l` is an index), the
/// only one that starts where `s` ends is the one at `r`, and no unused
/// range overlaps `s`.
proof fn lemma_neighbours(u: Seq<ManagedSector>, end: ManagedSector, s: ManagedSector, l: int, r: int)
    requires
        free_apart(u, end),
        3 <= s.start < s.end <= end.start,
        forall|b: int| in_range(s, b) ==> !is_free(u, end, b),
        is_first(u, ends_at(s.start, -1), l),
        is_first(u, starts_at(s.end, -1, l), r),
    ensures
        forall|y: ManagedSector| #[trigger] u.to_multiset().count(y) > 0 ==> {
            &&& y.end <= s.start || s.end <= y.start
            &&& y.end == s.start ==> l < u.len() && y == u[l]
            &&& y.start == s.end ==> r < u.len() && y == u[r]
        },
        l < u.len() ==> u[l].end == s.start,
        r < u.len() ==> u[r].start == s.end && r != l,
{
    let ms = u.to_multiset();
    assert forall|y: ManagedSector| #[trigger] ms.count(y) > 0 implies {
        &&& y.end <= s.start || s.end <= y.start
        &&& y.end == s.start ==> l < u.len() && y == u[l]
        &&& y.start == s.end ==> r < u.len() && y == u[r]
    } by {
        let b = if y.start > s.start { y.start as int } else { s.start as int };
        if b < y.end && b < s.end {
            assert(in_range(s, b));
            assert(ms.count(y) > 0 && in_range(y, b));
            assert(ms_covers(ms, b));
        }
        let j = lemma_counted_index(u, y);
        if y.end == s.start {
            assert(ends_at(s.start, -1)(j, u[j]));
            if l < u.len() {
                lemma_index_counted(u, l);
                if y != u[l] {
                    assert(ms.count(u[l]) > 0);
                }
            }
        }
        if y.start == s.end {
            if j == l {
                assert(ends_at(s.start, -1)(l, u[l]));
            }
            assert(starts_at(s.end, -1, l)(j, u[j]));
            if r < u.len() {
                lemma_index_counted(u, r);
                if y != u[r] {
                    assert(ms.count(u[r]) > 0);
                }
            }
        }
    }
}

/// Deallocating a used range `s` (not free, starting at block 3 or later
/// and ending no later than the end range starts) makes exactly its blocks
/// free again, and the free ranges stay apart: it is merged with the unused
/// range just before it and the one just after it, and with the end range
/// when it reaches it, so that no two free ranges touch.
pub proof fn law_deallocate_frees_blocks(u: Seq<ManagedSector>, end: ManagedSector, s: ManagedSector)
    requires
        free_apart(u, end),
        3 <= s.start < s.end <= end.start,
        forall|b: int| in_range(s, b) ==> !is_free(u, end, b),
    ensures
        gives_back(u, end, spec_release(u, end, s).0, spec_release(u, end, s).1, s),
{
    broadcast use vstd::multiset::group_multiset_axioms;

    let ms = u.to_multiset();
    lemma_first_exists(u, ends_at(s.start, -1), 0);
    let l = first_index(u, ends_at(s.start, -1));
    lemma_first_exists(u, starts_at(s.end, -1, l), 0);
    let r = first_index(u, starts_at(s.end, -1, l));
    lemma_neighbours(u, end, s, l, r);
    let has_l = l < u.len();
    let has_r = r < u.len();
    let m = ManagedSector {
        start: if has_l { u[l].start } else { s.start },
        end: if has_r { u[r].end } else { s.end },
    };
    let res = spec_merge_free(u, end, s, -1);
    if has_l {
        lemma_index_counted(u, l);
        assert(u[l].start < u[l].end);
    }
    if has_r {
        lemma_index_counted(u, r);
        assert(u[r].start < u[r].end);
    }
    let mlr = if has_l { ms.remove(u[l]) } else { ms };
    let mr = if has_r { mlr.remove(u[r]) } else { mlr };
    let rest = if has_l && has_r {
        seq_swap_remove(seq_swap_remove(u, if l > r { l } else { r }), if l > r { r } else { l })
    } else if has_l {
        seq_swap_remove(u, l)
    } else if has_r {
        seq_swap_remove(u, r)
    } else {
        u
    };
    if has_l {
        lemma_covers_remove(ms, end, u[l], 0);
    }
    if has_r {
        assert(mlr.count(u[r]) > 0);
        lemma_covers_remove(mlr, end, u[r], 0);
    }
    assert(ms_apart(mr, end));
    if has_l && has_r {
        let hi = if l > r { l } else { r };
        let lo = if l > r { r } else { l };
        let t = seq_swap_remove(u, hi);
        lemma_swap_remove_multiset(u, hi);
        assert(t[lo] == u[lo]);
        lemma_swap_remove_multiset(t, lo);
        assert(rest.to_multiset() =~= mr);
    } else if has_l {
        lemma_swap_remove_multiset(u, l);
    } else if has_r {
        lemma_swap_remove_multiset(u, r);
    }
    assert(rest.to_multiset() == mr);
    assert forall|y: ManagedSector| #[trigger] mr.count(y) > 0 implies y.end < m.start || m.end < y.start by {
        assert(ms.count(y) > 0);
        if has_l {
            assert(y != u[l]);
        }
        if has_r {
            assert(y != u[r]);
        }
    }
    assert forall|b: int| #[trigger] ms_covers(mr, b) == (ms_covers(ms, b) && !in_range(m, b)) by {
        if has_l {
            lemma_covers_remove(ms, end, u[l], b);
        }
        if has_r {
            lemma_covers_remove(mlr, end, u[r], b);
        }
        if ms_covers(ms, b) && in_range(m, b) && !(has_l && in_range(u[l], b)) && !(has_r && in_range(u[r], b)) {
            assert(in_range(s, b));
        }
    }
    if m.end == end.start {
        let e2 = ManagedSector { start: m.start, end: end.end };
        assert(res == (rest, e2));
        assert forall|b: int| #[trigger] is_free(rest, e2, b) == (is_free(u, end, b) || in_range(s, b)) by {
            if has_l && in_range(u[l], b) {
                assert(ms.count(u[l]) > 0);
            }
            if has_r && in_range(u[r], b) {
                assert(ms.count(u[r]) > 0);
            }
        }
        assert forall|y: ManagedSector| #[trigger] mr.count(y) > 0 implies mr.count(y) == 1 && 3 <= y.start < y.end < e2.start by {
            assert(ms.count(y) > 0);
        }
    } else {
        let u2 = rest.push(m);
        assert(res == (u2, end));
        vstd::seq_lib::to_multiset_build(rest, m);
        let m2 = mr.insert(m);
        assert(u2.to_multiset() == m2);
        assert forall|b: int| #[trigger] is_free(u2, end, b) == (is_free(u, end, b) || in_range(s, b)) by {
            lemma_covers_insert(mr, m, b);
            if has_l && in_range(u[l], b) {
                assert(ms.count(u[l]) > 0);
            }
            if has_r && in_range(u[r], b) {
                assert(ms.count(u[r]) > 0);
            }
        }
        assert(mr.count(m) == 0) by {
            if mr.count(m) > 0 {
                assert(m.end < m.start || m.end < m.start);
            }
        }
        assert forall|y: ManagedSector| #[trigger] m2.count(y) > 0 implies m2.count(y) == 1 && 3 <= y.start < y.end < end.start by {
            if y != m {
                assert(mr.count(y) > 0);
            }
        }
        assert forall|y: ManagedSector, z: ManagedSector|
            #[trigger] m2.count(y) > 0 && #[trigger] m2.count(z) > 0 && y != z implies y.end < z.start || z.end < y.start by {
            if y != m && z != m {
                assert(mr.count(y) > 0 && mr.count(z) > 0);
            } else if y == m {
                assert(mr.count(z) > 0);
            } else {
                assert(mr.count(y) > 0);
            }
        }
    }
}

} // verus!
