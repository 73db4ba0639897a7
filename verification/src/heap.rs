//! First-fit free-list allocator over the kernel heap window.
//!
//! The heap region is treated as a single free extent at initialization
//! and subdivided and merged on every allocate and free. Blocks live on a
//! 16-byte granularity: every request is rounded up to a multiple of 16
//! bytes of at least 16 (a free block must be able to hold the list's own
//! bookkeeping), allocation scans the address-ordered free list for the
//! first block large enough and carves the request off its front, and
//! freeing inserts the block back in address order, coalescing with both
//! neighbors so the list always holds maximal extents.
//!
//! The allocator here manages the address arithmetic only; the unverified
//! shell lets the real heap hand out the same addresses inside the mapped
//! window.

use vstd::arithmetic::div_mod::{lemma_fundamental_div_mod, lemma_mod_multiples_basic};
use vstd::prelude::*;

verus! {

/// The block granularity: every allocation is a multiple of this size.
pub const MIN_BLOCK: u64 = 16;

/// One maximal free extent: `size` bytes starting at `addr`.
#[derive(Debug, Clone, Copy, PartialEq, Eq, Structural)]
pub struct FreeBlock {
    pub addr: u64,
    pub size: u64,
}

/// A request of `n` bytes rounded up to the block granularity.
pub open spec fn spec_round_size(n: int) -> int {
    if n <= 16 {
        16
    } else {
        ((n + 15) / 16) * 16
    }
}

/// The rounded size is a multiple of 16, at least 16, at least the
/// request, and overshoots it by less than the granularity.
pub proof fn lemma_round_size(n: int)
    requires
        0 <= n,
    ensures
        16 <= spec_round_size(n),
        n <= spec_round_size(n),
        spec_round_size(n) % 16 == 0,
        spec_round_size(n) <= n + 15 || spec_round_size(n) == 16,
{
    if n > 16 {
        lemma_fundamental_div_mod(n + 15, 16);
        lemma_mod_multiples_basic((n + 15) / 16, 16);
    }
}

/// A block fits the heap window `[lo, hi)`: aligned and sized to the
/// granularity, and entirely inside the window.
pub open spec fn block_in_range(b: FreeBlock, lo: int, hi: int) -> bool {
    &&& b.addr as int % 16 == 0
    &&& b.size as int % 16 == 0
    &&& b.size >= 16
    &&& lo <= b.addr
    &&& b.addr + b.size <= hi
}

/// A well-formed free list for the window `[lo, hi)`: every block fits
/// the window, and consecutive blocks are strictly separated (so the list
/// is address-ordered and fully coalesced).
pub open spec fn blocks_wf(bs: Seq<FreeBlock>, lo: int, hi: int) -> bool {
    &&& forall|i: int| 0 <= i < bs.len() ==> block_in_range(#[trigger] bs[i], lo, hi)
    &&& forall|i: int|
        0 <= i < bs.len() - 1 ==> (#[trigger] bs[i].addr) + bs[i].size < bs[i + 1].addr
}

/// The first index whose block holds at least `rsize` bytes, scanning
/// from the front.
pub open spec fn spec_first_fit(bs: Seq<FreeBlock>, rsize: int) -> Option<int>
    decreases bs.len(),
{
    if bs.len() == 0 {
        None
    } else if bs[0].size >= rsize {
        Some(0int)
    } else {
        match spec_first_fit(bs.drop_first(), rsize) {
            Some(i) => Some(i + 1),
            None => None,
        }
    }
}

/// If every block before `i` is too small and block `i` fits, the
/// first-fit scan lands exactly on `i`.
pub proof fn lemma_first_fit_at(bs: Seq<FreeBlock>, rsize: int, i: int)
    requires
        0 <= i < bs.len(),
        forall|k: int| 0 <= k < i ==> (#[trigger] bs[k].size) < rsize,
        bs[i].size >= rsize,
    ensures
        spec_first_fit(bs, rsize) == Some(i),
    decreases i,
{
    if i == 0 {
    } else {
        lemma_first_fit_at(bs.drop_first(), rsize, i - 1);
    }
}

/// If every block is too small, the first-fit scan finds nothing.
pub proof fn lemma_first_fit_none(bs: Seq<FreeBlock>, rsize: int)
    requires
        forall|k: int| 0 <= k < bs.len() ==> (#[trigger] bs[k].size) < rsize,
    ensures
        spec_first_fit(bs, rsize) is None,
    decreases bs.len(),
{
    if bs.len() > 0 {
        lemma_first_fit_none(bs.drop_first(), rsize);
    }
}

/// The free list after `rsize` bytes are carved off the front of block
/// `i`: the block disappears when consumed whole, otherwise it shrinks
/// from the front.
pub open spec fn spec_take_from(bs: Seq<FreeBlock>, i: int, rsize: int) -> Seq<FreeBlock> {
    if bs[i].size == rsize {
        bs.remove(i)
    } else {
        bs.update(
            i,
            FreeBlock { addr: (bs[i].addr + rsize) as u64, size: (bs[i].size - rsize) as u64 },
        )
    }
}

/// Carving off the front of a fitting block keeps the free list
/// well-formed.
pub proof fn lemma_take_from_wf(bs: Seq<FreeBlock>, lo: int, hi: int, i: int, rsize: int)
    requires
        0 <= lo,
        hi <= u64::MAX,
        blocks_wf(bs, lo, hi),
        0 <= i < bs.len(),
        16 <= rsize,
        rsize % 16 == 0,
        bs[i].size >= rsize,
    ensures
        blocks_wf(spec_take_from(bs, i, rsize), lo, hi),
{
    assert(block_in_range(bs[i], lo, hi));
    let nbs = spec_take_from(bs, i, rsize);
    if bs[i].size == rsize {
        assert forall|k: int| 0 <= k < nbs.len() implies block_in_range(
            #[trigger] nbs[k],
            lo,
            hi,
        ) by {
            assert(nbs[k] == bs[if k < i {
                k
            } else {
                k + 1
            }]);
        }
        assert forall|k: int| 0 <= k < nbs.len() - 1 implies (#[trigger] nbs[k].addr) + nbs[k].size
            < nbs[k + 1].addr by {
            if k == i - 1 {
                assert(bs[k].addr + bs[k].size < bs[k + 1].addr);
                assert(block_in_range(bs[k + 1], lo, hi));
                assert(bs[k + 1].addr + bs[k + 1].size < bs[k + 2].addr);
            } else if k >= i {
                assert(bs[k + 1].addr + bs[k + 1].size < bs[k + 2].addr);
            }
        }
    } else {
        assert(bs[i].size - rsize >= 16) by {
            lemma_fundamental_div_mod(bs[i].size as int - rsize, 16);
        }
        assert forall|k: int| 0 <= k < nbs.len() implies block_in_range(
            #[trigger] nbs[k],
            lo,
            hi,
        ) by {
            if k != i {
                assert(nbs[k] == bs[k]);
            } else {
                assert(nbs[k].addr == bs[i].addr + rsize);
                assert(nbs[k].size == bs[i].size - rsize);
            }
        }
        assert forall|k: int| 0 <= k < nbs.len() - 1 implies (#[trigger] nbs[k].addr) + nbs[k].size
            < nbs[k + 1].addr by {
            if k == i - 1 {
                assert(bs[k].addr + bs[k].size < bs[k + 1].addr);
                assert(nbs[k + 1].addr == bs[i].addr + rsize);
            } else if k == i {
                assert(nbs[k].addr + nbs[k].size == bs[i].addr + bs[i].size);
                assert(bs[k].addr + bs[k].size < bs[k + 1].addr);
            }
        }
    }
}

/// Where a freed block at `addr` belongs in the address-ordered list:
/// after every block that starts below it.
pub open spec fn spec_insert_index(bs: Seq<FreeBlock>, addr: int) -> int
    decreases bs.len(),
{
    if bs.len() == 0 {
        0
    } else if bs[0].addr < addr {
        1 + spec_insert_index(bs.drop_first(), addr)
    } else {
        0
    }
}

/// Any position with all earlier blocks below `addr` and the next block
/// (if any) at or above it is the insertion index.
pub proof fn lemma_insert_index_at(bs: Seq<FreeBlock>, addr: int, j: int)
    requires
        0 <= j <= bs.len(),
        forall|k: int| 0 <= k < j ==> (#[trigger] bs[k].addr) < addr,
        j < bs.len() ==> bs[j].addr >= addr,
    ensures
        spec_insert_index(bs, addr) == j,
    decreases bs.len(),
{
    if bs.len() == 0 {
    } else if bs[0].addr < addr {
        lemma_insert_index_at(bs.drop_first(), addr, j - 1);
    } else {
    }
}

/// The insertion index lies within the list bounds.
pub proof fn lemma_insert_index_bounds(bs: Seq<FreeBlock>, addr: int)
    ensures
        0 <= spec_insert_index(bs, addr) <= bs.len(),
    decreases bs.len(),
{
    if bs.len() > 0 && bs[0].addr < addr {
        lemma_insert_index_bounds(bs.drop_first(), addr);
    }
}

/// The insertion index is the first position whose block does not start
/// below `addr`: everything before it does, and the block at it (if any)
/// does not.
pub proof fn lemma_insert_index_props(bs: Seq<FreeBlock>, addr: int)
    ensures
        0 <= spec_insert_index(bs, addr) <= bs.len(),
        forall|k: int|
            0 <= k < spec_insert_index(bs, addr) ==> (#[trigger] bs[k].addr) < addr,
        spec_insert_index(bs, addr) < bs.len() ==> bs[spec_insert_index(bs, addr)].addr >= addr,
    decreases bs.len(),
{
    if bs.len() > 0 && bs[0].addr < addr {
        lemma_insert_index_props(bs.drop_first(), addr);
        assert forall|k: int| 0 <= k < spec_insert_index(bs, addr) implies (#[trigger] bs[k].addr)
            < addr by {
            if k > 0 {
                assert(bs.drop_first()[k - 1].addr < addr);
            }
        }
    }
}

/// The free list after the block `[addr, addr + rsize)` is returned:
/// inserted in address order and merged with the left neighbor it
/// touches, the right neighbor it touches, or both.
pub open spec fn spec_deallocate(bs: Seq<FreeBlock>, addr: int, rsize: int) -> Seq<FreeBlock> {
    let j = spec_insert_index(bs, addr);
    let merge_left = j > 0 && bs[j - 1].addr + bs[j - 1].size == addr;
    let merge_right = j < bs.len() && addr + rsize == bs[j].addr;
    if merge_left && merge_right {
        bs.update(
            j - 1,
            FreeBlock { addr: bs[j - 1].addr, size: (bs[j - 1].size + rsize + bs[j].size) as u64 },
        ).remove(j)
    } else if merge_left {
        bs.update(j - 1, FreeBlock { addr: bs[j - 1].addr, size: (bs[j - 1].size + rsize) as u64 })
    } else if merge_right {
        bs.update(j, FreeBlock { addr: addr as u64, size: (rsize + bs[j].size) as u64 })
    } else {
        bs.insert(j, FreeBlock { addr: addr as u64, size: rsize as u64 })
    }
}

/// Whether the region `[addr, addr + rsize)` may be returned to a heap
/// with free list `bs` over window `[lo, hi)`: granular, inside the
/// window, and overlapping no free block.
pub open spec fn spec_free_fits(bs: Seq<FreeBlock>, lo: int, hi: int, addr: int, rsize: int) -> bool {
    &&& addr % 16 == 0
    &&& lo <= addr
    &&& addr + rsize <= hi
    &&& forall|i: int|
        0 <= i < bs.len() ==> (#[trigger] bs[i].addr) + bs[i].size <= addr || addr + rsize
            <= bs[i].addr
}

/// Returning a fitting block and coalescing keeps the free list
/// well-formed.
pub proof fn lemma_deallocate_wf(bs: Seq<FreeBlock>, lo: int, hi: int, addr: int, rsize: int)
    requires
        0 <= lo,
        hi <= u64::MAX,
        blocks_wf(bs, lo, hi),
        spec_free_fits(bs, lo, hi, addr, rsize),
        16 <= rsize,
        rsize % 16 == 0,
    ensures
        blocks_wf(spec_deallocate(bs, addr, rsize), lo, hi),
{
    let j = spec_insert_index(bs, addr);
    lemma_insert_index_props(bs, addr);
    let merge_left = j > 0 && bs[j - 1].addr + bs[j - 1].size == addr;
    let merge_right = j < bs.len() && addr + rsize == bs[j].addr;
    if merge_left && merge_right {
        lemma_deallocate_wf_both(bs, lo, hi, addr, rsize);
    } else if merge_left {
        lemma_deallocate_wf_left(bs, lo, hi, addr, rsize);
    } else if merge_right {
        lemma_deallocate_wf_right(bs, lo, hi, addr, rsize);
    } else {
        lemma_deallocate_wf_insert(bs, lo, hi, addr, rsize);
    }
}

/// Case of `lemma_deallocate_wf`: the freed block touches both
/// neighbors, which merge into one extent.
proof fn lemma_deallocate_wf_both(bs: Seq<FreeBlock>, lo: int, hi: int, addr: int, rsize: int)
    requires
        0 <= lo,
        hi <= u64::MAX,
        blocks_wf(bs, lo, hi),
        spec_free_fits(bs, lo, hi, addr, rsize),
        16 <= rsize,
        rsize % 16 == 0,
        ({
            let j = spec_insert_index(bs, addr);
            &&& j > 0 && bs[j - 1].addr + bs[j - 1].size == addr
            &&& j < bs.len() && addr + rsize == bs[j].addr
        }),
    ensures
        blocks_wf(spec_deallocate(bs, addr, rsize), lo, hi),
{
    lemma_deallocate_wf_both_ranges(bs, lo, hi, addr, rsize);
    lemma_deallocate_wf_both_separation(bs, lo, hi, addr, rsize);
}

/// Every block of the both-neighbors merge fits the window.
#[verifier::spinoff_prover]
#[verifier::rlimit(100)]
proof fn lemma_deallocate_wf_both_ranges(bs: Seq<FreeBlock>, lo: int, hi: int, addr: int, rsize: int)
    requires
        0 <= lo,
        hi <= u64::MAX,
        blocks_wf(bs, lo, hi),
        16 <= rsize,
        rsize % 16 == 0,
        ({
            let j = spec_insert_index(bs, addr);
            &&& j > 0 && bs[j - 1].addr + bs[j - 1].size == addr
            &&& j < bs.len() && addr + rsize == bs[j].addr
        }),
    ensures
        ({
            let nbs = spec_deallocate(bs, addr, rsize);
            forall|k: int| 0 <= k < nbs.len() ==> block_in_range(#[trigger] nbs[k], lo, hi)
        }),
{
    let j = spec_insert_index(bs, addr);
    lemma_insert_index_props(bs, addr);
    assert(block_in_range(bs[j - 1], lo, hi));
    assert(block_in_range(bs[j], lo, hi));
    let nbs = spec_deallocate(bs, addr, rsize);
    assert(bs[j - 1].addr + (bs[j - 1].size + rsize + bs[j].size) == bs[j].addr + bs[j].size);
    assert(bs[j - 1].size + rsize + bs[j].size <= u64::MAX);
    assert forall|k: int| 0 <= k < nbs.len() implies block_in_range(#[trigger] nbs[k], lo, hi) by {
        if k != j - 1 {
            assert(nbs[k] == bs[if k < j {
                k
            } else {
                k + 1
            }]);
        } else {
            assert(nbs[k].addr == bs[j - 1].addr);
            assert(nbs[k].size == bs[j - 1].size + rsize + bs[j].size);
        }
    }
}

/// Consecutive blocks of the both-neighbors merge stay strictly
/// separated.
#[verifier::spinoff_prover]
#[verifier::rlimit(100)]
proof fn lemma_deallocate_wf_both_separation(
    bs: Seq<FreeBlock>,
    lo: int,
    hi: int,
    addr: int,
    rsize: int,
)
    requires
        0 <= lo,
        hi <= u64::MAX,
        blocks_wf(bs, lo, hi),
        16 <= rsize,
        rsize % 16 == 0,
        ({
            let j = spec_insert_index(bs, addr);
            &&& j > 0 && bs[j - 1].addr + bs[j - 1].size == addr
            &&& j < bs.len() && addr + rsize == bs[j].addr
        }),
    ensures
        ({
            let nbs = spec_deallocate(bs, addr, rsize);
            forall|k: int|
                0 <= k < nbs.len() - 1 ==> (#[trigger] nbs[k].addr) + nbs[k].size < nbs[k + 1].addr
        }),
{
    let j = spec_insert_index(bs, addr);
    lemma_insert_index_props(bs, addr);
    assert(block_in_range(bs[j - 1], lo, hi));
    assert(block_in_range(bs[j], lo, hi));
    let nbs = spec_deallocate(bs, addr, rsize);
    if j + 1 < bs.len() {
        assert(bs[j].addr + bs[j].size < bs[j + 1].addr);
    }
    assert(bs[j - 1].addr + (bs[j - 1].size + rsize + bs[j].size) == bs[j].addr + bs[j].size);
    assert(bs[j - 1].size + rsize + bs[j].size <= u64::MAX);
    assert forall|k: int| 0 <= k < nbs.len() - 1 implies (#[trigger] nbs[k].addr) + nbs[k].size
        < nbs[k + 1].addr by {
        if k < j - 1 {
            assert(nbs[k] == bs[k]);
            assert(bs[k].addr + bs[k].size < bs[k + 1].addr);
            if k + 1 < j - 1 {
                assert(nbs[k + 1] == bs[k + 1]);
            } else {
                assert(nbs[k + 1].addr == bs[j - 1].addr);
            }
        } else if k == j - 1 {
            assert(nbs[k + 1] == bs[j + 1]);
            assert(bs[j].addr + bs[j].size < bs[j + 1].addr);
        } else {
            assert(nbs[k] == bs[k + 1] && nbs[k + 1] == bs[k + 2]);
            assert(bs[k + 1].addr + bs[k + 1].size < bs[k + 2].addr);
        }
    }
}

/// Case of `lemma_deallocate_wf`: the freed block extends the extent
/// ending exactly at its address.
#[verifier::rlimit(100)]
proof fn lemma_deallocate_wf_left(bs: Seq<FreeBlock>, lo: int, hi: int, addr: int, rsize: int)
    requires
        0 <= lo,
        hi <= u64::MAX,
        blocks_wf(bs, lo, hi),
        spec_free_fits(bs, lo, hi, addr, rsize),
        16 <= rsize,
        rsize % 16 == 0,
        ({
            let j = spec_insert_index(bs, addr);
            &&& j > 0 && bs[j - 1].addr + bs[j - 1].size == addr
            &&& !(j < bs.len() && addr + rsize == bs[j].addr)
        }),
    ensures
        blocks_wf(spec_deallocate(bs, addr, rsize), lo, hi),
{
    let j = spec_insert_index(bs, addr);
    lemma_insert_index_props(bs, addr);
    assert(block_in_range(bs[j - 1], lo, hi));
    let nbs = spec_deallocate(bs, addr, rsize);
    assert(bs[j - 1].addr + (bs[j - 1].size + rsize) == addr + rsize);
    assert(bs[j - 1].size + rsize <= u64::MAX);
    assert forall|k: int| 0 <= k < nbs.len() implies block_in_range(#[trigger] nbs[k], lo, hi) by {
        if k != j - 1 {
            assert(nbs[k] == bs[k]);
        } else {
            assert(nbs[k].addr == bs[j - 1].addr);
            assert(nbs[k].size == bs[j - 1].size + rsize);
        }
    }
    assert forall|k: int| 0 <= k < nbs.len() - 1 implies (#[trigger] nbs[k].addr) + nbs[k].size
        < nbs[k + 1].addr by {
        if k == j - 1 {
            assert(nbs[k + 1] == bs[j]);
            assert(bs[j].addr >= addr);
            assert(bs[j].addr + bs[j].size <= addr || addr + rsize <= bs[j].addr);
        } else {
            assert(nbs[k] == bs[k]);
            assert(bs[k].addr + bs[k].size < bs[k + 1].addr);
            if k + 1 != j - 1 {
                assert(nbs[k + 1] == bs[k + 1]);
            } else {
                assert(nbs[k + 1].addr == bs[k + 1].addr);
            }
        }
    }
}

/// Case of `lemma_deallocate_wf`: the freed block absorbs the extent
/// starting exactly at its end.
#[verifier::rlimit(100)]
proof fn lemma_deallocate_wf_right(bs: Seq<FreeBlock>, lo: int, hi: int, addr: int, rsize: int)
    requires
        0 <= lo,
        hi <= u64::MAX,
        blocks_wf(bs, lo, hi),
        spec_free_fits(bs, lo, hi, addr, rsize),
        16 <= rsize,
        rsize % 16 == 0,
        ({
            let j = spec_insert_index(bs, addr);
            &&& !(j > 0 && bs[j - 1].addr + bs[j - 1].size == addr)
            &&& j < bs.len() && addr + rsize == bs[j].addr
        }),
    ensures
        blocks_wf(spec_deallocate(bs, addr, rsize), lo, hi),
{
    let j = spec_insert_index(bs, addr);
    lemma_insert_index_props(bs, addr);
    assert(block_in_range(bs[j], lo, hi));
    let nbs = spec_deallocate(bs, addr, rsize);
    assert(addr + (rsize + bs[j].size) == bs[j].addr + bs[j].size);
    assert(rsize + bs[j].size <= u64::MAX);
    assert forall|k: int| 0 <= k < nbs.len() implies block_in_range(#[trigger] nbs[k], lo, hi) by {
        if k != j {
            assert(nbs[k] == bs[k]);
        } else {
            assert(nbs[k].addr == addr);
            assert(nbs[k].size == rsize + bs[j].size);
        }
    }
    assert forall|k: int| 0 <= k < nbs.len() - 1 implies (#[trigger] nbs[k].addr) + nbs[k].size
        < nbs[k + 1].addr by {
        if k == j - 1 {
            assert(nbs[k] == bs[k]);
            assert(bs[k].addr < addr);
            assert(bs[k].addr + bs[k].size <= addr || addr + rsize <= bs[k].addr);
            assert(nbs[k + 1].addr == addr);
        } else if k == j {
            assert(nbs[k + 1] == bs[k + 1]);
            assert(bs[k].addr + bs[k].size < bs[k + 1].addr);
        } else {
            assert(nbs[k] == bs[k] && nbs[k + 1] == bs[k + 1]);
            assert(bs[k].addr + bs[k].size < bs[k + 1].addr);
        }
    }
}

/// Case of `lemma_deallocate_wf`: the freed block touches no neighbor
/// and is inserted as an extent of its own.
#[verifier::rlimit(100)]
proof fn lemma_deallocate_wf_insert(bs: Seq<FreeBlock>, lo: int, hi: int, addr: int, rsize: int)
    requires
        0 <= lo,
        hi <= u64::MAX,
        blocks_wf(bs, lo, hi),
        spec_free_fits(bs, lo, hi, addr, rsize),
        16 <= rsize,
        rsize % 16 == 0,
        ({
            let j = spec_insert_index(bs, addr);
            &&& !(j > 0 && bs[j - 1].addr + bs[j - 1].size == addr)
            &&& !(j < bs.len() && addr + rsize == bs[j].addr)
        }),
    ensures
        blocks_wf(spec_deallocate(bs, addr, rsize), lo, hi),
{
    let j = spec_insert_index(bs, addr);
    lemma_insert_index_props(bs, addr);
    let nbs = spec_deallocate(bs, addr, rsize);
    assert forall|k: int| 0 <= k < nbs.len() implies block_in_range(#[trigger] nbs[k], lo, hi) by {
        if k < j {
            assert(nbs[k] == bs[k]);
        } else if k > j {
            assert(nbs[k] == bs[k - 1]);
        } else {
            assert(nbs[k].addr == addr && nbs[k].size == rsize);
        }
    }
    assert forall|k: int| 0 <= k < nbs.len() - 1 implies (#[trigger] nbs[k].addr) + nbs[k].size
        < nbs[k + 1].addr by {
        if k + 1 < j {
            assert(nbs[k] == bs[k] && nbs[k + 1] == bs[k + 1]);
            assert(bs[k].addr + bs[k].size < bs[k + 1].addr);
        } else if k + 1 == j {
            assert(nbs[k] == bs[k]);
            assert(bs[k].addr < addr);
            assert(bs[k].addr + bs[k].size <= addr || addr + rsize <= bs[k].addr);
            assert(bs[k].addr + bs[k].size != addr);
            assert(nbs[k + 1].addr == addr);
        } else if k == j {
            assert(nbs[k + 1] == bs[k]);
            assert(bs[k].addr >= addr);
            assert(bs[k].addr + bs[k].size <= addr || addr + rsize <= bs[k].addr);
            assert(addr + rsize != bs[k].addr);
            assert(nbs[k].addr == addr && nbs[k].size == rsize);
        } else {
            assert(nbs[k] == bs[k - 1] && nbs[k + 1] == bs[k]);
            assert(bs[k - 1].addr + bs[k - 1].size < bs[k].addr);
        }
    }
}

/// First-fit free-list allocator over a fixed heap window.
#[derive(Debug)]
pub struct FreeListHeap {
    bottom: u64,
    size: u64,
    free: Vec<FreeBlock>,
}

impl FreeListHeap {
    /// Bottom address of the managed window.
    pub closed spec fn bottom(&self) -> u64 {
        self.bottom
    }

    /// Size of the managed window in bytes.
    pub closed spec fn heap_size(&self) -> u64 {
        self.size
    }

    /// One past the highest managed address.
    pub open spec fn top(&self) -> int {
        self.bottom() + self.heap_size()
    }

    /// The free list, in address order.
    pub closed spec fn free_blocks(&self) -> Seq<FreeBlock> {
        self.free@
    }

    /// A well-formed heap: a granular window and a well-formed free list
    /// inside it.
    pub open spec fn wf(&self) -> bool {
        &&& self.bottom() as int % 16 == 0
        &&& self.heap_size() as int % 16 == 0
        &&& self.heap_size() >= 16
        &&& self.bottom() + self.heap_size() <= u64::MAX
        &&& blocks_wf(self.free_blocks(), self.bottom() as int, self.top())
    }

    /// A fresh heap over `[bottom, bottom + size)`: one free extent
    /// covering the whole window.
    pub fn new(bottom: u64, size: u64) -> (h: FreeListHeap)
        requires
            bottom as int % 16 == 0,
            size as int % 16 == 0,
            size >= 16,
            bottom + size <= u64::MAX,
        ensures
            h.wf(),
            h.bottom() == bottom,
            h.heap_size() == size,
            h.free_blocks() == seq![FreeBlock { addr: bottom, size }],
    {
        let mut free: Vec<FreeBlock> = Vec::new();
        free.push(FreeBlock { addr: bottom, size });
        let h = FreeListHeap { bottom, size, free };
        assert(h.free_blocks() =~= seq![FreeBlock { addr: bottom, size }]);
        h
    }

    /// Allocate `size` bytes: round the request up to the granularity,
    /// scan the address-ordered free list front to back, and carve the
    /// block off the front of the first extent large enough. Returns the
    /// block's address, or nothing exactly when no extent fits (the
    /// out-of-memory report).
    #[verifier::rlimit(100)]
    pub fn allocate(&mut self, size: u64) -> (r: Option<u64>)
        requires
            old(self).wf(),
            size <= u64::MAX - 15,
        ensures
            final(self).wf(),
            final(self).bottom() == old(self).bottom(),
            final(self).heap_size() == old(self).heap_size(),
            ({
                let rsize = spec_round_size(size as int);
                match spec_first_fit(old(self).free_blocks(), rsize) {
                    Some(i) => r == Some(old(self).free_blocks()[i].addr)
                        && final(self).free_blocks() == spec_take_from(
                        old(self).free_blocks(),
                        i,
                        rsize,
                    ),
                    None => r is None && final(self).free_blocks() == old(self).free_blocks(),
                }
            }),
            r is Some <==> spec_first_fit(old(self).free_blocks(), spec_round_size(size as int))
                is Some,
    {
        proof {
            lemma_round_size(size as int);
        }
        let rsize = if size <= MIN_BLOCK {
            MIN_BLOCK
        } else {
            proof {
                lemma_fundamental_div_mod(size as int + 15, 16);
            }
            ((size + 15) / 16) * 16
        };
        let n = self.free.len();
        let mut i: usize = 0;
        while i < n && self.free[i].size < rsize
            invariant
                *self == *old(self),
                n == self.free.len(),
                i <= n,
                rsize == spec_round_size(size as int),
                forall|k: int| 0 <= k < i ==> (#[trigger] self.free@[k].size) < rsize,
            decreases n - i,
        {
            i = i + 1;
        }
        if i == n {
            proof {
                lemma_first_fit_none(self.free@, rsize as int);
            }
            return None;
        }
        proof {
            lemma_first_fit_at(self.free@, rsize as int, i as int);
            lemma_take_from_wf(self.free@, self.bottom as int, self.top(), i as int, rsize as int);
            assert(block_in_range(self.free@[i as int], self.bottom as int, self.top()));
        }
        let block = self.free[i];
        if block.size == rsize {
            self.free.remove(i);
            Some(block.addr)
        } else {
            self.free[i] = FreeBlock { addr: block.addr + rsize, size: block.size - rsize };
            Some(block.addr)
        }
    }

    /// Return the block `[ptr, ptr + rounded size)` previously carved
    /// from this heap: insert it in address order and coalesce it with
    /// any free neighbor it touches, so free extents stay maximal.
    #[verifier::rlimit(100)]
    pub fn deallocate(&mut self, ptr: u64, size: u64)
        requires
            old(self).wf(),
            size <= u64::MAX - 15,
            spec_free_fits(
                old(self).free_blocks(),
                old(self).bottom() as int,
                old(self).top(),
                ptr as int,
                spec_round_size(size as int),
            ),
        ensures
            final(self).wf(),
            final(self).bottom() == old(self).bottom(),
            final(self).heap_size() == old(self).heap_size(),
            final(self).free_blocks() == spec_deallocate(
                old(self).free_blocks(),
                ptr as int,
                spec_round_size(size as int),
            ),
    {
        proof {
            lemma_round_size(size as int);
            lemma_deallocate_wf(
                self.free@,
                self.bottom as int,
                self.top(),
                ptr as int,
                spec_round_size(size as int),
            );
        }
        let rsize = if size <= MIN_BLOCK {
            MIN_BLOCK
        } else {
            proof {
                lemma_fundamental_div_mod(size as int + 15, 16);
            }
            ((size + 15) / 16) * 16
        };
        let n = self.free.len();
        let mut j: usize = 0;
        while j < n && self.free[j].addr < ptr
            invariant
                *self == *old(self),
                n == self.free.len(),
                j <= n,
                forall|k: int| 0 <= k < j ==> (#[trigger] self.free@[k].addr) < ptr,
            decreases n - j,
        {
            j = j + 1;
        }
        proof {
            lemma_insert_index_at(self.free@, ptr as int, j as int);
            if j > 0 {
                assert(block_in_range(self.free@[j - 1], self.bottom as int, self.top()));
            }
            if (j as int) < n {
                assert(block_in_range(self.free@[j as int], self.bottom as int, self.top()));
            }
        }
        let merge_left = j > 0 && self.free[j - 1].addr + self.free[j - 1].size == ptr;
        let merge_right = j < n && ptr + rsize == self.free[j].addr;
        let ghost bs = old(self).free_blocks();
        if merge_left && merge_right {
            let left = self.free[j - 1];
            let right = self.free[j];
            proof {
                if j as int + 1 < n {
                    assert(bs[j as int].addr + bs[j as int].size < bs[j as int + 1].addr);
                }
            }
            self.free[j - 1] = FreeBlock { addr: left.addr, size: left.size + rsize + right.size };
            self.free.remove(j);
            assert(self.free_blocks() =~= spec_deallocate(
                bs,
                ptr as int,
                spec_round_size(size as int),
            ));
        } else if merge_left {
            let left = self.free[j - 1];
            self.free[j - 1] = FreeBlock { addr: left.addr, size: left.size + rsize };
            assert(self.free_blocks() =~= spec_deallocate(
                bs,
                ptr as int,
                spec_round_size(size as int),
            ));
        } else if merge_right {
            let right = self.free[j];
            self.free[j] = FreeBlock { addr: ptr, size: rsize + right.size };
            assert(self.free_blocks() =~= spec_deallocate(
                bs,
                ptr as int,
                spec_round_size(size as int),
            ));
        } else {
            self.free.insert(j, FreeBlock { addr: ptr, size: rsize });
            assert(self.free_blocks() =~= spec_deallocate(
                bs,
                ptr as int,
                spec_round_size(size as int),
            ));
        }
    }
}

/// Law: on a fresh heap, two back-to-back allocations of the same size
/// return the window bottom and the address exactly one rounded request
/// above it — first-fit on a single extent is bump allocation, and for a
/// request that is already a multiple of the granularity the two
/// addresses are separated by exactly the requested size.
pub proof fn lemma_fresh_heap_two_allocations(bottom: int, heap_size: int, n: int)
    requires
        0 <= n,
        bottom % 16 == 0,
        heap_size % 16 == 0,
        0 <= bottom,
        bottom + heap_size <= u64::MAX,
        2 * spec_round_size(n) <= heap_size,
    ensures
        ({
            let rsize = spec_round_size(n);
            let fresh = seq![FreeBlock { addr: bottom as u64, size: heap_size as u64 }];
            let after_first = spec_take_from(fresh, 0, rsize);
            &&& spec_first_fit(fresh, rsize) == Some(0int)
            &&& fresh[0].addr == bottom
            &&& spec_first_fit(after_first, rsize) == Some(0int)
            &&& after_first[0].addr == bottom + rsize
            &&& (16 <= n && n % 16 == 0 ==> after_first[0].addr - fresh[0].addr == n)
        }),
{
    lemma_round_size(n);
    let rsize = spec_round_size(n);
    let fresh = seq![FreeBlock { addr: bottom as u64, size: heap_size as u64 }];
    assert(spec_first_fit(fresh, rsize) == Some(0int));
    let after_first = spec_take_from(fresh, 0, rsize);
    assert(after_first[0].addr == bottom + rsize);
    assert(spec_first_fit(after_first, rsize) == Some(0int));
    if 16 <= n && n % 16 == 0 {
        lemma_fundamental_div_mod(n + 15, 16);
        lemma_fundamental_div_mod(n, 16);
        assert(rsize == n);
    }
}

/// Law: freeing a block and immediately requesting the same size returns
/// the same address (exact reuse): as long as no free block below the
/// freed address could satisfy the request and the freed block does not
/// coalesce into a lower neighbor, the freed extent (possibly merged with
/// the extent just above it) is the first fit, and its address is the
/// freed address. (A lower free block large enough for the request, or
/// one ending exactly at the freed address, takes precedence instead.)
pub proof fn lemma_free_then_reallocate(bs: Seq<FreeBlock>, lo: int, hi: int, ptr: int, n: int)
    requires
        0 <= n,
        0 <= lo,
        hi <= u64::MAX,
        blocks_wf(bs, lo, hi),
        spec_free_fits(bs, lo, hi, ptr, spec_round_size(n)),
        ({
            let j = spec_insert_index(bs, ptr);
            &&& (forall|k: int| 0 <= k < j ==> (#[trigger] bs[k].size) < spec_round_size(n))
            &&& (j > 0 ==> bs[j - 1].addr + bs[j - 1].size < ptr)
            &&& (forall|k: int| 0 <= k < j ==> (#[trigger] bs[k].addr) < ptr)
            &&& (j < bs.len() ==> bs[j].addr >= ptr)
        }),
    ensures
        ({
            let rsize = spec_round_size(n);
            let freed = spec_deallocate(bs, ptr, rsize);
            let refit = spec_first_fit(freed, rsize);
            &&& refit is Some
            &&& freed[refit->Some_0].addr == ptr
        }),
{
    lemma_round_size(n);
    let rsize = spec_round_size(n);
    let j = spec_insert_index(bs, ptr);
    lemma_insert_index_bounds(bs, ptr);
    lemma_insert_index_at(bs, ptr, j);
    if j < bs.len() {
        assert(block_in_range(bs[j], lo, hi));
    }
    let freed = spec_deallocate(bs, ptr, rsize);
    let merge_right = j < bs.len() && ptr + rsize == bs[j].addr;
    if merge_right {
        assert(freed == bs.update(
            j,
            FreeBlock { addr: ptr as u64, size: (rsize + bs[j].size) as u64 },
        ));
        assert(freed[j].size >= rsize);
        assert forall|k: int| 0 <= k < j implies (#[trigger] freed[k].size) < rsize by {
            assert(freed[k] == bs[k]);
        }
        lemma_first_fit_at(freed, rsize, j);
    } else {
        assert(freed == bs.insert(j, FreeBlock { addr: ptr as u64, size: rsize as u64 }));
        assert(freed[j].addr == ptr && freed[j].size == rsize);
        assert forall|k: int| 0 <= k < j implies (#[trigger] freed[k].size) < rsize by {
            assert(freed[k] == bs[k]);
        }
        lemma_first_fit_at(freed, rsize, j);
    }
}

} // verus!
