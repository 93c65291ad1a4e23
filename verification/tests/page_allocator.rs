use canister_sandbox::page_allocator::{
    FileDescriptor, HeapBasedPage, HeapBasedPageAllocator, PageAllocatorInner,
    PageAllocatorSerialization, PageDeltaSerialization, PageInner, PageMap,
};
use canister_sandbox::segments::{PageIndex, PAGE_SIZE};

fn page_of(byte: u8) -> [u8; PAGE_SIZE] {
    [byte; PAGE_SIZE]
}

#[test]
fn allocated_pages_hold_what_they_were_made_of() {
    let allocator = HeapBasedPageAllocator::new();
    let pages = allocator.allocate(&vec![
        (PageIndex::new(7), page_of(1)),
        (PageIndex::new(2), page_of(9)),
    ]);
    assert_eq!(pages.len(), 2);
    assert_eq!(pages[0].0, PageIndex::new(7));
    assert_eq!(pages[0].1.contents(), &page_of(1));
    assert_eq!(pages[1].0, PageIndex::new(2));
    assert_eq!(pages[1].1.contents(), &page_of(9));
    assert!(allocator.allocate(&Vec::new()).is_empty());
}

#[test]
fn pages_survive_being_sent() {
    let allocator = HeapBasedPageAllocator::new();
    let mut second = page_of(0);
    second[17] = 3;
    let sent = allocator.allocate(&vec![
        (PageIndex::new(4), page_of(8)),
        (PageIndex::new(5), second),
    ]);
    let delta = allocator.serialize_page_delta(&sent);
    match &delta {
        PageDeltaSerialization::Heap(pages) => {
            assert_eq!(pages.len(), 2);
            assert_eq!(pages[1].index, PageIndex::new(5));
            assert_eq!(pages[1].bytes, second);
        }
        other => panic!("{:?}", other),
    }
    let there = HeapBasedPageAllocator::deserialize(PageAllocatorInner::serialize(&allocator));
    let made = there.deserialize_page_delta(delta);
    assert_eq!(made.len(), 2);
    for (made, sent) in made.iter().zip(sent.iter()) {
        assert_eq!(made.0, sent.0);
        assert_eq!(made.1.contents(), sent.1.contents());
    }
}

#[test]
fn an_empty_delta_makes_no_pages() {
    let allocator = HeapBasedPageAllocator::new();
    assert!(allocator.deserialize_page_delta(PageDeltaSerialization::Empty).is_empty());
    let delta = allocator.serialize_page_delta(&Vec::new());
    assert!(matches!(&delta, PageDeltaSerialization::Heap(pages) if pages.is_empty()));
}

#[test]
fn a_heap_allocator_is_not_built_from_a_file() {
    assert!(HeapBasedPageAllocator::try_deserialize(PageAllocatorSerialization::Heap).is_some());
    let file = PageAllocatorSerialization::Mmap(FileDescriptor { fd: 3 });
    assert!(HeapBasedPageAllocator::try_deserialize(file).is_none());
    assert_eq!(
        PageAllocatorInner::serialize(&HeapBasedPageAllocator::new()),
        PageAllocatorSerialization::Heap
    );
}

#[test]
fn a_slice_is_written_into_a_page() {
    let mut page = HeapBasedPage(Box::new(page_of(1)));
    page.copy_from_slice(4094, &[7, 8]);
    page.copy_from_slice(0, &[]);
    page.copy_from_slice(10, &[5]);
    let contents = page.contents();
    assert_eq!(contents[4093], 1);
    assert_eq!(contents[4094], 7);
    assert_eq!(contents[4095], 8);
    assert_eq!(contents[10], 5);
    assert_eq!(contents[9], 1);
    assert_eq!(contents[11], 1);
}

#[test]
fn the_delta_of_a_page_map_lists_the_pages_asked_for() {
    let map = PageMap::from_pages(vec![(PageIndex::new(1), page_of(4))]);
    match map.serialize_delta(&vec![PageIndex::new(9), PageIndex::new(1), PageIndex::new(1)]) {
        PageDeltaSerialization::Heap(pages) => {
            let found: Vec<(u64, u8)> =
                pages.iter().map(|page| (page.index.get(), page.bytes[100])).collect();
            assert_eq!(found, vec![(9, 0), (1, 4), (1, 4)]);
        }
        other => panic!("{:?}", other),
    }
    assert!(PageMap::new().get_page(PageIndex::new(0)).iter().all(|byte| *byte == 0));
}
