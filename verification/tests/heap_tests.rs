use greg_os::allocator::{
    heap_page_range, init_heap, FrameAllocator, MapToError, PageTable, HEAP_SIZE, HEAP_START,
    PAGE_SIZE,
};
use greg_os::heap::FreeListHeap;

fn fresh_heap() -> FreeListHeap {
    FreeListHeap::new(HEAP_START, HEAP_SIZE)
}

#[test]
fn heap_allocation_and_freeing() {
    let mut heap = fresh_heap();
    // Start of address space.
    let first = heap.allocate(4).unwrap();
    assert_eq!(first, HEAP_START);
    // Next 16 bytes.
    let second = heap.allocate(4).unwrap();
    assert_eq!(second, HEAP_START + 16);
    // Free up 16 bytes.
    heap.deallocate(second, 4);
    // Reuse previous 16 bytes.
    let third = heap.allocate(4).unwrap();
    assert_eq!(third, HEAP_START + 16);
}

#[test]
fn two_allocations_are_request_apart() {
    let mut heap = fresh_heap();
    let a = heap.allocate(48).unwrap();
    let b = heap.allocate(48).unwrap();
    assert_eq!(b - a, 48);
}

#[test]
fn requests_round_up_to_granularity() {
    let mut heap = fresh_heap();
    let a = heap.allocate(1).unwrap();
    let b = heap.allocate(17).unwrap();
    let c = heap.allocate(1).unwrap();
    assert_eq!(a, HEAP_START);
    assert_eq!(b, HEAP_START + 16);
    assert_eq!(c, HEAP_START + 48);
}

#[test]
fn exhaustion_reports_out_of_memory() {
    let mut heap = fresh_heap();
    assert_eq!(heap.allocate(HEAP_SIZE), Some(HEAP_START));
    assert_eq!(heap.allocate(1), None);
    heap.deallocate(HEAP_START, HEAP_SIZE);
    assert_eq!(heap.allocate(1), Some(HEAP_START));
}

#[test]
fn freed_neighbors_coalesce() {
    let mut heap = fresh_heap();
    let a = heap.allocate(16).unwrap();
    let b = heap.allocate(16).unwrap();
    let c = heap.allocate(16).unwrap();
    assert_eq!((a, b, c), (HEAP_START, HEAP_START + 16, HEAP_START + 32));
    // Free the first two; they merge into one 32-byte extent, so a
    // 32-byte request fits at the very bottom again.
    heap.deallocate(a, 16);
    heap.deallocate(b, 16);
    let d = heap.allocate(32).unwrap();
    assert_eq!(d, HEAP_START);
}

#[test]
fn first_fit_skips_small_holes() {
    let mut heap = fresh_heap();
    let a = heap.allocate(16).unwrap();
    let _b = heap.allocate(32).unwrap();
    heap.deallocate(a, 16);
    // The 16-byte hole at the bottom cannot hold 32 bytes; the request
    // comes from the tail instead.
    let c = heap.allocate(32).unwrap();
    assert_eq!(c, HEAP_START + 48);
    // A 16-byte request reuses the hole.
    let d = heap.allocate(16).unwrap();
    assert_eq!(d, HEAP_START);
}

#[test]
fn page_range_covers_the_window() {
    let (start, end) = heap_page_range();
    assert_eq!(start, HEAP_START / PAGE_SIZE);
    assert_eq!(end, (HEAP_START + HEAP_SIZE - 1) / PAGE_SIZE);
    assert_eq!(end - start + 1, 25);
}

#[test]
fn init_heap_maps_every_page() {
    let mut mapper = PageTable::new();
    let frames: Vec<u64> = (100..125).collect();
    let mut frame_allocator = FrameAllocator::new(frames);
    let heap = init_heap(&mut mapper, &mut frame_allocator).unwrap();
    let (start, end) = heap_page_range();
    for page in start..=end {
        let mapping = mapper.translate(page).expect("page must be mapped");
        assert!(mapping.flags.present);
        assert!(mapping.flags.writable);
        assert_eq!(mapping.frame, 100 + (page - start));
    }
    assert_eq!(frame_allocator.available(), 0);
    // The returned allocator serves the mapped window.
    let mut heap = heap;
    assert_eq!(heap.allocate(16), Some(HEAP_START));
}

#[test]
fn init_heap_frame_exhaustion() {
    let mut mapper = PageTable::new();
    let frames: Vec<u64> = (100..110).collect();
    let mut frame_allocator = FrameAllocator::new(frames);
    let err = init_heap(&mut mapper, &mut frame_allocator).unwrap_err();
    assert_eq!(err, MapToError::FrameAllocationFailed);
    // No rollback: the pages that got a frame stay mapped.
    let (start, _end) = heap_page_range();
    assert!(mapper.translate(start).is_some());
    assert!(mapper.translate(start + 9).is_some());
    assert!(mapper.translate(start + 10).is_none());
}

#[test]
fn init_heap_rejects_premapped_page() {
    let mut mapper = PageTable::new();
    let (start, _end) = heap_page_range();
    mapper
        .map_to(start + 3, 999, greg_os::allocator::PageFlags { present: true, writable: false })
        .unwrap()
        .flush();
    let frames: Vec<u64> = (100..125).collect();
    let mut frame_allocator = FrameAllocator::new(frames);
    let err = init_heap(&mut mapper, &mut frame_allocator).unwrap_err();
    assert_eq!(err, MapToError::PageAlreadyMapped);
}
