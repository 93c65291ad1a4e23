use canister_sandbox::errors::WasmInstrumentationError;
use canister_sandbox::segments::{NumWasmPages, PageIndex, Segments, PAGE_SIZE};

fn invalid(result: Result<(), WasmInstrumentationError>) -> (usize, usize) {
    match result {
        Err(WasmInstrumentationError::InvalidDataSegment { offset, len }) => (offset, len),
        other => panic!("expected an invalid data segment, got {:?}", other),
    }
}

#[test]
fn segment_that_ends_with_the_memory_is_accepted() {
    let segments = Segments::from(vec![(65536 - 4, vec![1, 2, 3, 4])]);
    assert!(segments.validate(NumWasmPages::new(1)).is_ok());
}

#[test]
fn segment_one_byte_beyond_the_memory_is_rejected() {
    let segments = Segments::from(vec![(65536 - 4, vec![1, 2, 3, 4, 5])]);
    assert_eq!(invalid(segments.validate(NumWasmPages::new(1))), (65532, 5));
}

#[test]
fn segment_at_65500_of_length_100_is_rejected_in_one_page() {
    let segments = Segments::from(vec![(65500, vec![7; 100])]);
    assert_eq!(invalid(segments.validate(NumWasmPages::new(1))), (65500, 100));
}

#[test]
fn segment_at_65436_of_length_100_is_accepted() {
    let segments = Segments::from(vec![(65436, vec![7; 100])]);
    assert!(segments.validate(NumWasmPages::new(1)).is_ok());
    // 65436 = 15 * 4096 + 3996: the segment fills the last 100 bytes of the
    // last 4 KiB page of the memory.
    let pages = segments.as_pages();
    assert_eq!(pages.len(), 1);
    assert_eq!(pages[0].0, PageIndex::new(15));
    for i in 0..PAGE_SIZE {
        assert_eq!(pages[0].1[i], if i >= PAGE_SIZE - 100 { 7 } else { 0 });
    }
}

#[test]
fn segment_across_a_page_boundary_is_split_in_two_pages() {
    let segments = Segments::from(vec![(61400, vec![7; 100])]);
    assert!(segments.validate(NumWasmPages::new(1)).is_ok());
    // 61400 = 14 * 4096 + 4056: 40 bytes lie in page 14 and 60 in page 15.
    let pages = segments.as_pages();
    assert_eq!(pages.len(), 2);
    assert_eq!(pages[0].0, PageIndex::new(14));
    assert_eq!(pages[1].0, PageIndex::new(15));
    for i in 0..PAGE_SIZE {
        assert_eq!(pages[0].1[i], if i >= PAGE_SIZE - 40 { 7 } else { 0 });
        assert_eq!(pages[1].1[i], if i < 60 { 7 } else { 0 });
    }
}

#[test]
fn the_first_segment_out_of_bounds_is_named() {
    let segments = Segments::from(vec![(0, vec![1]), (70000, vec![2]), (80000, vec![3])]);
    assert_eq!(invalid(segments.validate(NumWasmPages::new(1))), (70000, 1));
}

#[test]
fn segment_whose_end_overflows_is_rejected() {
    let segments = Segments::from(vec![(usize::MAX, vec![1, 2])]);
    assert_eq!(invalid(segments.validate(NumWasmPages::new(1))), (usize::MAX, 2));
}

#[test]
fn no_segment_fits_an_empty_memory_but_an_empty_one_at_zero() {
    assert!(Segments::from(vec![(0, Vec::new())]).validate(NumWasmPages::new(0)).is_ok());
    let segments = Segments::from(vec![(0, vec![1])]);
    assert_eq!(invalid(segments.validate(NumWasmPages::new(0))), (0, 1));
}

#[test]
fn as_slice_gives_the_segments_back() {
    let segments = Segments::from(vec![(3, vec![1, 2]), (9, vec![])]);
    assert_eq!(segments.as_slice(), &[(3, vec![1, 2]), (9, vec![])]);
    let segments = Segments::new(vec![(4, vec![8])]);
    assert_eq!(segments.as_slice(), &[(4, vec![8])]);
}

#[test]
fn pages_come_in_order_of_their_index_and_once() {
    let segments = Segments::from(vec![
        (3 * PAGE_SIZE + 1, vec![3]),
        (PAGE_SIZE, vec![1]),
        (3 * PAGE_SIZE + 5, vec![4]),
        (0, vec![9]),
    ]);
    let pages = segments.as_pages();
    let indices: Vec<u64> = pages.iter().map(|page| page.0.get()).collect();
    assert_eq!(indices, vec![0, 1, 3]);
    assert_eq!(pages[0].1[0], 9);
    assert_eq!(pages[1].1[0], 1);
    assert_eq!(pages[2].1[1], 3);
    assert_eq!(pages[2].1[5], 4);
    assert_eq!(pages[2].1[0], 0);
}

#[test]
fn later_segment_overwrites_an_earlier_one() {
    let segments = Segments::from(vec![(10, vec![1, 1, 1, 1]), (12, vec![2, 2, 2])]);
    let pages = segments.as_pages();
    assert_eq!(pages.len(), 1);
    assert_eq!(&pages[0].1[9..16], &[0, 1, 1, 2, 2, 2, 0]);
}

#[test]
fn empty_segment_touches_the_page_of_its_offset() {
    let pages = Segments::from(vec![(2 * PAGE_SIZE + 7, Vec::new())]).as_pages();
    assert_eq!(pages.len(), 1);
    assert_eq!(pages[0].0, PageIndex::new(2));
    assert!(pages[0].1.iter().all(|byte| *byte == 0));
}

#[test]
fn no_segment_gives_no_page() {
    assert!(Segments::from(Vec::new()).as_pages().is_empty());
}

#[test]
fn pages_reconstruct_the_segments() {
    let data: Vec<u8> = (0..10000u32).map(|i| (i % 251) as u8 + 1).collect();
    let offset = 5000;
    let pages = Segments::from(vec![(offset, data.clone())]).as_pages();
    assert_eq!(pages.len(), 3);
    let mut memory = vec![0u8; 5 * PAGE_SIZE];
    for (index, bytes) in pages.iter() {
        let start = index.get() as usize * PAGE_SIZE;
        memory[start..start + PAGE_SIZE].copy_from_slice(bytes);
    }
    assert_eq!(&memory[offset..offset + data.len()], data.as_slice());
    assert!(memory[..offset].iter().all(|byte| *byte == 0));
    assert!(memory[offset + data.len()..].iter().all(|byte| *byte == 0));
}

#[test]
fn segment_that_ends_on_a_page_boundary_touches_no_further_page() {
    let pages = Segments::from(vec![(PAGE_SIZE - 2, vec![5, 6])]).as_pages();
    assert_eq!(pages.len(), 1);
    assert_eq!(pages[0].1[PAGE_SIZE - 1], 6);
}
