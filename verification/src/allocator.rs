//! Virtual-memory-backed heap bootstrap.
//!
//! The kernel heap is a fixed virtual window. Bootstrapping it walks every
//! page of the window, takes one physical frame from the frame allocator,
//! and installs a present and writable mapping for the page, flushing the
//! lookaside-cache entry at once; when the frames run out the walk stops
//! with a frame-allocation error and the pages already mapped stay mapped
//! (no rollback). After the walk the free-list allocator is initialized
//! over the window, exactly once, and returned to the caller.
//!
//! The page-table mapper and the frame allocator are collaborators: they
//! are modelled here as plain data (a map from page number to mapping, a
//! queue of free frame numbers), and the unverified shell replays the same
//! walk against the hardware page tables.

use crate::heap::FreeListHeap;
use std::collections::HashMap;
use vstd::prelude::*;

verus! {

broadcast use vstd::std_specs::hash::group_hash_axioms;

/// Bottom virtual address of the kernel heap window.
pub const HEAP_START: u64 = 0x4444_4444_0000;

/// Size of the kernel heap window in bytes.
pub const HEAP_SIZE: u64 = 100 * 1024;

/// Bytes per page and per frame.
pub const PAGE_SIZE: u64 = 4096;

/// Number of the first page of the heap window.
pub open spec fn spec_heap_start_page() -> int {
    HEAP_START as int / PAGE_SIZE as int
}

/// Number of the last page of the heap window (the range is inclusive).
pub open spec fn spec_heap_end_page() -> int {
    (HEAP_START + HEAP_SIZE - 1) as int / PAGE_SIZE as int
}

/// Why installing a mapping failed.
#[derive(Debug, Clone, Copy, PartialEq, Eq, Structural)]
pub enum MapToError {
    /// The frame allocator is exhausted: the one recoverable condition of
    /// the whole bootstrap.
    FrameAllocationFailed,
    /// The page already has a mapping.
    PageAlreadyMapped,
}

/// The access bits of one page-table mapping.
#[derive(Debug, Clone, Copy, PartialEq, Eq, Structural)]
pub struct PageFlags {
    pub present: bool,
    pub writable: bool,
}

/// The flags the heap bootstrap installs.
pub open spec fn spec_heap_flags() -> PageFlags {
    PageFlags { present: true, writable: true }
}

/// One installed mapping: the backing frame and its flags.
#[derive(Debug, Clone, Copy, PartialEq, Eq, Structural)]
pub struct Mapping {
    pub frame: u64,
    pub flags: PageFlags,
}

/// A pending lookaside-cache invalidation for one page; the mapping is
/// not reliably visible until it is flushed.
pub struct TlbFlush {
    page: u64,
}

impl TlbFlush {
    /// The page whose cached lookup must be invalidated.
    pub closed spec fn spec_page(&self) -> u64 {
        self.page
    }

    /// Invalidate the cached lookup, returning the page for the
    /// shell to carry the invalidation to the hardware.
    pub fn flush(self) -> (p: u64)
        ensures
            p == self.spec_page(),
    {
        self.page
    }
}

/// The page-table mapper collaborator, as the data it manages: the set of
/// installed page-to-frame mappings, keyed by page number.
pub struct PageTable {
    mappings: HashMap<u64, Mapping>,
}

impl View for PageTable {
    type V = Map<u64, Mapping>;

    closed spec fn view(&self) -> Map<u64, Mapping> {
        self.mappings@
    }
}

impl PageTable {
    /// A table with no installed mappings.
    pub fn new() -> (t: PageTable)
        ensures
            t@ == Map::<u64, Mapping>::empty(),
    {
        PageTable { mappings: HashMap::new() }
    }

    /// The mapping installed for a page, if any.
    pub fn translate(&self, page: u64) -> (r: Option<Mapping>)
        ensures
            match r {
                Some(m) => self@.contains_key(page) && m == self@[page],
                None => !self@.contains_key(page),
            },
    {
        match self.mappings.get(&page) {
            Some(m) => Some(*m),
            None => None,
        }
    }

    /// Install a mapping from a page to a frame with the given flags.
    /// Fails, changing nothing, exactly when the page is already mapped;
    /// on success the new mapping is installed and the returned flush
    /// must be performed before the mapping is relied on.
    pub fn map_to(&mut self, page: u64, frame: u64, flags: PageFlags) -> (r: Result<
        TlbFlush,
        MapToError,
    >)
        ensures
            old(self)@.contains_key(page) ==> r is Err && r->Err_0
                == MapToError::PageAlreadyMapped && final(self)@ == old(self)@,
            !old(self)@.contains_key(page) ==> r is Ok && r->Ok_0.spec_page() == page && (final(self)@
                == old(self)@.insert(page, Mapping { frame, flags })),
    {
        if self.mappings.contains_key(&page) {
            Err(MapToError::PageAlreadyMapped)
        } else {
            self.mappings.insert(page, Mapping { frame, flags });
            Ok(TlbFlush { page })
        }
    }
}

/// The frame-allocator collaborator, as the data it manages: the queue of
/// physical frames still available, handed out front first.
pub struct FrameAllocator {
    frames: Vec<u64>,
}

impl View for FrameAllocator {
    type V = Seq<u64>;

    closed spec fn view(&self) -> Seq<u64> {
        self.frames@
    }
}

impl FrameAllocator {
    /// An allocator over the given frames, handed out in order.
    pub fn new(frames: Vec<u64>) -> (a: FrameAllocator)
        ensures
            a@ == frames@,
    {
        FrameAllocator { frames }
    }

    /// How many frames are still available.
    pub fn available(&self) -> (r: usize)
        ensures
            r == self@.len(),
    {
        self.frames.len()
    }

    /// Hand out the next unused frame; empty exactly when exhausted.
    pub fn allocate_frame(&mut self) -> (r: Option<u64>)
        ensures
            old(self)@.len() == 0 ==> r is None && final(self)@ == old(self)@,
            old(self)@.len() > 0 ==> r == Some(old(self)@[0]) && final(self)@ == old(
                self,
            )@.drop_first(),
    {
        if self.frames.len() == 0 {
            None
        } else {
            let f = self.frames.remove(0);
            assert(self.frames@ =~= old(self)@.drop_first());
            Some(f)
        }
    }
}

/// The walk of the bootstrap over pages `page..=end`: take a frame, fail
/// with `FrameAllocationFailed` if there is none, install the mapping,
/// fail with `PageAlreadyMapped` if one exists (the taken frame stays
/// consumed and the pages already mapped stay mapped), and continue.
/// Yields the final mappings, the remaining frames, and the outcome.
pub open spec fn spec_bootstrap(
    m: Map<u64, Mapping>,
    frames: Seq<u64>,
    page: int,
    end: int,
) -> (Map<u64, Mapping>, Seq<u64>, Result<(), MapToError>)
    decreases end + 1 - page,
{
    if page > end {
        (m, frames, Ok(()))
    } else if frames.len() == 0 {
        (m, frames, Err(MapToError::FrameAllocationFailed))
    } else if m.contains_key(page as u64) {
        (m, frames.drop_first(), Err(MapToError::PageAlreadyMapped))
    } else {
        spec_bootstrap(
            m.insert(page as u64, Mapping { frame: frames[0], flags: spec_heap_flags() }),
            frames.drop_first(),
            page + 1,
            end,
        )
    }
}

/// What the bootstrap walk guarantees: it succeeds exactly when there are
/// enough frames and no page of the range is already mapped, and then
/// every page of the range is mapped present and writable to the frames
/// taken in order, other pages untouched, with the used frames consumed.
pub proof fn lemma_bootstrap_outcome(m: Map<u64, Mapping>, frames: Seq<u64>, page: int, end: int)
    requires
        0 <= page,
        page <= end + 1,
        end < u64::MAX,
    ensures
        spec_bootstrap(m, frames, page, end).2 is Ok <==> frames.len() >= end + 1 - page && (
        forall|p: int| page <= p <= end ==> !(#[trigger] m.contains_key(p as u64))),
        spec_bootstrap(m, frames, page, end).2 is Ok ==> forall|p: int|
            page <= p <= end ==> (#[trigger] spec_bootstrap(m, frames, page, end).0.contains_key(
                p as u64,
            )) && spec_bootstrap(m, frames, page, end).0[p as u64] == (Mapping {
                frame: frames[p - page],
                flags: spec_heap_flags(),
            }),
        spec_bootstrap(m, frames, page, end).2 is Ok ==> spec_bootstrap(m, frames, page, end).1
            == frames.skip(end + 1 - page),
        forall|k: u64|
            !(page <= k as int <= end) ==> (#[trigger] spec_bootstrap(
                m,
                frames,
                page,
                end,
            ).0.contains_key(k) == m.contains_key(k) && (m.contains_key(k) ==> spec_bootstrap(
                m,
                frames,
                page,
                end,
            ).0[k] == m[k])),
    decreases end + 1 - page,
{
    if page > end {
        assert(frames.skip(0) =~= frames);
    } else if frames.len() == 0 {
    } else if m.contains_key(page as u64) {
    } else {
        let m1 = m.insert(page as u64, Mapping { frame: frames[0], flags: spec_heap_flags() });
        lemma_bootstrap_outcome(m1, frames.drop_first(), page + 1, end);
        let (m2, frames2, result) = spec_bootstrap(m, frames, page, end);
        assert((forall|p: int|
            page + 1 <= p <= end ==> !(#[trigger] m1.contains_key(p as u64))) <==> (forall|p: int|
            page <= p <= end ==> !(#[trigger] m.contains_key(p as u64)))) by {
            if (forall|p: int| page + 1 <= p <= end ==> !(#[trigger] m1.contains_key(p as u64))) {
                assert forall|p: int| page <= p <= end implies !(#[trigger] m.contains_key(
                    p as u64,
                )) by {
                    if p > page {
                        assert(!m1.contains_key(p as u64));
                    }
                }
            }
            if (forall|p: int| page <= p <= end ==> !(#[trigger] m.contains_key(p as u64))) {
                assert forall|p: int| page + 1 <= p <= end implies !(#[trigger] m1.contains_key(
                    p as u64,
                )) by {
                    assert(!m.contains_key(p as u64));
                }
            }
        }
        assert(spec_bootstrap(m, frames, page, end) == spec_bootstrap(
            m1,
            frames.drop_first(),
            page + 1,
            end,
        ));
        assert forall|k: u64| !(page <= k as int <= end) implies (#[trigger] m2.contains_key(k)
            == m.contains_key(k) && (m.contains_key(k) ==> m2[k] == m[k])) by {
            assert(k != page as u64);
            assert(m2.contains_key(k) == m1.contains_key(k) && (m1.contains_key(k) ==> m2[k]
                == m1[k]));
        }
        if result is Ok {
            assert forall|p: int| page <= p <= end implies (#[trigger] m2.contains_key(p as u64))
                && m2[p as u64] == (Mapping {
                frame: frames[p - page],
                flags: spec_heap_flags(),
            }) by {
                if p > page {
                    assert(frames.drop_first()[p - (page + 1)] == frames[p - page]);
                }
            }
            assert(frames.drop_first().skip(end - page) =~= frames.skip(end + 1 - page));
        }
    }
}

/// The page range of the heap window: first and last page number, both
/// ends included, the bottom aligned down and the top aligned up to the
/// page size.
pub fn heap_page_range() -> (r: (u64, u64))
    ensures
        r.0 == spec_heap_start_page(),
        r.1 == spec_heap_end_page(),
        r.0 <= r.1,
{
    let heap_start_page: u64 = HEAP_START / PAGE_SIZE;
    let heap_end_page: u64 = (HEAP_START + HEAP_SIZE - 1) / PAGE_SIZE;
    (heap_start_page, heap_end_page)
}

/// Bootstrap the kernel heap: map every page of the heap window to a
/// fresh frame, present and writable, flushing each new mapping, and
/// then initialize the free-list allocator over the window, exactly once.
///
/// Succeeds exactly when the frame allocator holds a frame for every page
/// of the window and no page of the window is already mapped. On failure
/// the error is propagated — `FrameAllocationFailed` for exhaustion,
/// distinct from the mapping error — and pages already mapped stay
/// mapped (a known simplification: no rollback).
#[verifier::loop_isolation(false)]
pub fn init_heap(mapper: &mut PageTable, frame_allocator: &mut FrameAllocator) -> (r: Result<
    FreeListHeap,
    MapToError,
>)
    ensures
        ({
            let (m2, frames2, outcome) = spec_bootstrap(
                old(mapper)@,
                old(frame_allocator)@,
                spec_heap_start_page(),
                spec_heap_end_page(),
            );
            &&& final(mapper)@ == m2
            &&& final(frame_allocator)@ == frames2
            &&& (r is Ok <==> outcome is Ok)
            &&& (r is Err ==> r->Err_0 == outcome->Err_0)
        }),
        r is Ok <==> old(frame_allocator)@.len() >= spec_heap_end_page() + 1
            - spec_heap_start_page() && (forall|p: int|
            spec_heap_start_page() <= p <= spec_heap_end_page() ==> !(#[trigger] old(mapper)@.contains_key(p as u64))),
        r is Ok ==> forall|p: int|
            spec_heap_start_page() <= p <= spec_heap_end_page() ==> (#[trigger] final(mapper)@.contains_key(p as u64)) && final(mapper)@[p as u64].flags == spec_heap_flags(),
        r is Ok ==> r->Ok_0.wf() && r->Ok_0.bottom() == HEAP_START && r->Ok_0.heap_size()
            == HEAP_SIZE && r->Ok_0.free_blocks() == seq![
            crate::heap::FreeBlock { addr: HEAP_START, size: HEAP_SIZE },
        ],
{
    let (heap_start_page, heap_end_page) = heap_page_range();
    let mut page = heap_start_page;
    proof {
        lemma_bootstrap_outcome(
            old(mapper)@,
            old(frame_allocator)@,
            spec_heap_start_page(),
            spec_heap_end_page(),
        );
    }
    while page <= heap_end_page
        invariant
            heap_start_page == spec_heap_start_page(),
            heap_end_page == spec_heap_end_page(),
            heap_start_page <= page <= heap_end_page + 1,
            spec_bootstrap(
                old(mapper)@,
                old(frame_allocator)@,
                spec_heap_start_page(),
                spec_heap_end_page(),
            ) == spec_bootstrap(mapper@, frame_allocator@, page as int, heap_end_page as int),
        decreases heap_end_page + 1 - page,
    {
        let ghost m_top = mapper@;
        let ghost f_top = frame_allocator@;
        let frame = match frame_allocator.allocate_frame() {
            Some(frame) => frame,
            None => {
                proof {
                    assert(spec_bootstrap(m_top, f_top, page as int, heap_end_page as int) == (
                        mapper@,
                        frame_allocator@,
                        Err::<(), MapToError>(MapToError::FrameAllocationFailed),
                    ));
                }
                return Err(MapToError::FrameAllocationFailed);
            },
        };
        let flags = PageFlags { present: true, writable: true };
        match mapper.map_to(page, frame, flags) {
            Ok(flush) => {
                flush.flush();
            },
            Err(e) => {
                proof {
                    assert(spec_bootstrap(m_top, f_top, page as int, heap_end_page as int) == (
                        mapper@,
                        frame_allocator@,
                        Err::<(), MapToError>(MapToError::PageAlreadyMapped),
                    ));
                }
                return Err(e);
            },
        }
        proof {
            assert(spec_bootstrap(m_top, f_top, page as int, heap_end_page as int)
                == spec_bootstrap(
                mapper@,
                frame_allocator@,
                page as int + 1,
                heap_end_page as int,
            ));
        }
        page = page + 1;
    }
    proof {
        assert(spec_bootstrap(mapper@, frame_allocator@, page as int, heap_end_page as int) == (
            mapper@,
            frame_allocator@,
            Ok::<(), MapToError>(()),
        ));
        let (m2, frames2, result) = spec_bootstrap(
            old(mapper)@,
            old(frame_allocator)@,
            spec_heap_start_page(),
            spec_heap_end_page(),
        );
        assert(result is Ok);
        assert(m2 == mapper@);
        assert forall|p: int|
            spec_heap_start_page() <= p <= spec_heap_end_page() implies (#[trigger] mapper@.contains_key(p as u64)) && mapper@[p as u64].flags == spec_heap_flags() by {
            assert(m2.contains_key(p as u64) && m2[p as u64] == (Mapping {
                frame: old(frame_allocator)@[p - spec_heap_start_page()],
                flags: spec_heap_flags(),
            }));
        }
    }
    Ok(FreeListHeap::new(HEAP_START, HEAP_SIZE))
}

/// Law: after a successful bootstrap, every address of the heap window
/// `[HEAP_START, HEAP_START + HEAP_SIZE)` lies on a page that is mapped
/// present and writable, so reading or writing it cannot fault.
pub proof fn lemma_heap_window_backed(m: Map<u64, Mapping>)
    requires
        forall|p: int|
            spec_heap_start_page() <= p <= spec_heap_end_page() ==> #[trigger] m.contains_key(
                p as u64,
            ) && m[p as u64].flags == spec_heap_flags(),
    ensures
        forall|a: int|
            HEAP_START <= a < HEAP_START + HEAP_SIZE ==> #[trigger] m.contains_key(
                (a / PAGE_SIZE as int) as u64,
            ) && m[(a / PAGE_SIZE as int) as u64].flags == spec_heap_flags(),
{
    assert forall|a: int| HEAP_START <= a < HEAP_START + HEAP_SIZE implies #[trigger] m.contains_key(
        (a / PAGE_SIZE as int) as u64,
    ) && m[(a / PAGE_SIZE as int) as u64].flags == spec_heap_flags() by {
        let p = a / PAGE_SIZE as int;
        vstd::arithmetic::div_mod::lemma_div_is_ordered(HEAP_START as int, a, PAGE_SIZE as int);
        vstd::arithmetic::div_mod::lemma_div_is_ordered(
            a,
            HEAP_START as int + HEAP_SIZE as int - 1,
            PAGE_SIZE as int,
        );
        assert(spec_heap_start_page() <= p <= spec_heap_end_page());
    }
}

} // verus!
