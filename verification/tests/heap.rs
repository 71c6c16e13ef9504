use emu6502::heap::Heap;

#[test]
fn test_too_big() {
    let mut heap = Heap::new();
    assert!(heap.malloc(65535).is_err());
    assert!(heap.malloc(65534).is_err());
    assert!(heap.malloc(65533).is_err());
}

#[test]
fn test_max_alloc() {
    let mut heap = Heap::new();
    assert!(heap.malloc(65532).is_ok());
    assert!(heap.malloc(1).is_err());
}

fn test_alloc(size: u16) {
    let mut heap = Heap::new();
    assert!(heap.malloc(size).is_ok());
}

#[test]
fn test_allocs() {
    for size in 1..=65532 {
        test_alloc(size);
    }
}

#[test]
fn test_zero() {
    let mut heap = Heap::new();
    let ptr = heap.malloc(0);
    assert!(ptr.is_ok());
    assert_eq!(2, heap.get_size(ptr.unwrap() - 2))
}

#[test]
fn test_malloc() {
    let mut heap = Heap::new();
    // bytes 0 and 1 of the whole heap structure hold a pointer
    // to the first free block in the free list.
    assert_eq!(Heap::GLOBAL_SIZE, heap.read_u16(0));
    let next_free = heap.iter().next().unwrap();
    assert_eq!(Heap::GLOBAL_SIZE, next_free);
    assert_eq!(Heap::MAX_FREE, heap.get_size(next_free));
    let ptr = heap.malloc(1);
    assert!(ptr.is_ok());
    let ptr = ptr.unwrap();
    // the pointer that malloc returns is not the start of the block: the
    // block starts two bytes earlier, where the size is kept
    assert_eq!(Heap::GLOBAL_SIZE + Heap::METADATA_SIZE, ptr);
    // a request of 1 byte gets 2, the room for a link once freed
    assert_eq!(2, heap.get_size(ptr - Heap::METADATA_SIZE));
    let next_free = heap.iter().next().unwrap();
    assert_eq!(ptr + 2, next_free);
    assert_eq!(ptr + 2, heap.read_u16(0));
    assert_eq!(Heap::MAX_FREE - Heap::METADATA_SIZE - 2, heap.get_size(next_free));

    let ptr2 = heap.malloc(1);
    assert!(ptr2.is_ok());
    let ptr2 = ptr2.unwrap();
    assert_eq!(ptr + 2 + Heap::METADATA_SIZE, ptr2);
    assert_eq!(2, heap.get_size(ptr2 - Heap::METADATA_SIZE));
    let next_free = heap.iter().next().unwrap();
    assert_eq!(Heap::MAX_FREE - 2 * (Heap::METADATA_SIZE + 2), heap.get_size(next_free));
}

fn fill(heap: &mut Heap) -> Vec<u16> {
    let mut allocs = Vec::new();
    // the global metadata takes 2 bytes and a block at least 4, so there is
    // room for (65536 - 2) / 4 = 16383 allocations of 1 byte
    for _ in 0..16383 {
        let alloc = heap.malloc(1);
        assert!(alloc.is_ok());
        let alloc = alloc.unwrap();
        assert_eq!(0, alloc % 4);
        allocs.push(alloc);
    }
    allocs
}

#[test]
fn test_to_the_max() {
    let mut heap = Heap::new();
    let allocs = fill(&mut heap);
    assert_eq!(16383, allocs.len());
    assert!(heap.malloc(1).is_err());
}

#[test]
fn test_to_the_max_and_free() {
    let mut heap = Heap::new();
    let allocs = fill(&mut heap);
    for alloc in allocs.iter().rev() {
        heap.free(*alloc);
    }
    let next_free = heap.iter().next().unwrap();
    assert_eq!(Heap::MAX_FREE, heap.get_size(next_free))
}

#[test]
fn test_to_the_max_and_free_randomly() {
    let mut heap = Heap::new();
    let mut allocs = fill(&mut heap);
    while allocs.len() > 0 {
        let r = rand::random_range(0..allocs.len());
        let alloc = allocs.remove(r);
        heap.free(alloc);
    }
    let next_free = heap.iter().next().unwrap();
    assert_eq!(Heap::MAX_FREE, heap.get_size(next_free))
}

#[test]
fn free_after_malloc_restores_the_heap() {
    let mut heap = Heap::new();
    let a = heap.malloc(10).unwrap();
    let b = heap.malloc(20).unwrap();
    let before = heap.read_u16(0);
    let c = heap.malloc(7).unwrap();
    heap.free(c);
    assert_eq!(before, heap.read_u16(0));
    assert_eq!(Heap::MAX_FREE - (12 + 22), heap.get_size(before));
    heap.free(a);
    heap.free(b);
    assert_eq!(2, heap.read_u16(0));
    assert_eq!(Heap::MAX_FREE, heap.get_size(2));
}

#[test]
fn first_fit_reuses_a_freed_hole() {
    let mut heap = Heap::new();
    let a = heap.malloc(8).unwrap();
    let _b = heap.malloc(8).unwrap();
    heap.free(a);
    // the hole left by `a` comes first in the list and holds 8 bytes
    let c = heap.malloc(4).unwrap();
    assert_eq!(a, c);
    // the hole is split into the 4 bytes asked for and a free block of 2
    assert_eq!(4, heap.get_size(c - 2));
    assert_eq!(2, heap.get_size(c + 4));
    let d = heap.malloc(6).unwrap();
    assert!(d > a);
}

#[test]
fn a_request_that_leaves_too_little_takes_the_whole_block() {
    let mut heap = Heap::new();
    let a = heap.malloc(6).unwrap();
    let _guard = heap.malloc(2).unwrap();
    heap.free(a);
    // a hole of 6: a request of 3 leaves 3, less than a header and a link
    let b = heap.malloc(3).unwrap();
    assert_eq!(a, b);
    assert_eq!(6, heap.get_size(b - 2));
}

#[test]
fn freeing_merges_with_both_neighbours() {
    let mut heap = Heap::new();
    let a = heap.malloc(4).unwrap();
    let b = heap.malloc(4).unwrap();
    let c = heap.malloc(4).unwrap();
    let _d = heap.malloc(4).unwrap();
    heap.free(a);
    heap.free(c);
    heap.free(b);
    assert_eq!(a - 2, heap.read_u16(0));
    assert_eq!(4 + 2 + 4 + 2 + 4, heap.get_size(a - 2));
}

#[test]
fn iterator_walks_the_free_list_in_address_order() {
    let mut heap = Heap::new();
    let a = heap.malloc(4).unwrap();
    let _b = heap.malloc(4).unwrap();
    let c = heap.malloc(4).unwrap();
    let _d = heap.malloc(4).unwrap();
    heap.free(c);
    heap.free(a);
    let mut it = heap.iter();
    assert_eq!(Some(a - 2), it.next());
    assert_eq!(Some(c - 2), it.next());
    assert!(it.next().is_some());
    assert_eq!(None, it.next());
}
