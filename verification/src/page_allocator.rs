//! Pages of memory snapshots as they are handed from one process to
//! another, and the count of the pages that are allocated.

use crate::segments::{PageBytes, PageIndex, PAGE_SIZE};
use std::sync::Arc;
use vstd::prelude::*;

verus! {

/// A file that an allocator keeps its pages in.
#[derive(Clone, Copy, Debug, PartialEq, Eq, Structural)]
pub struct FileDescriptor {
    pub fd: i32,
}

/// An offset in such a file.
pub type FileOffset = i64;

/// The number of pages that are allocated. The count is kept modulo the
/// range of `usize`, as a gauge: nothing depends on its exact value.
#[derive(Debug)]
pub struct PageCounter {
    count: usize,
}

/// `count + by`, modulo the range of `usize`.
pub open spec fn counted_up(count: usize, by: usize) -> usize {
    if count + by > usize::MAX {
        (count + by - usize::MAX - 1) as usize
    } else {
        (count + by) as usize
    }
}

/// `count - by`, modulo the range of `usize`.
pub open spec fn counted_down(count: usize, by: usize) -> usize {
    if count - by < 0 {
        (count - by + usize::MAX + 1) as usize
    } else {
        (count - by) as usize
    }
}

impl View for PageCounter {
    type V = usize;

    closed spec fn view(&self) -> usize {
        self.count
    }
}

impl PageCounter {
    /// A counter at zero.
    pub fn new() -> (res: Self)
        ensures
            res@ == 0,
    {
        PageCounter { count: 0 }
    }

    /// Counts one more page.
    pub fn inc(&mut self)
        ensures
            final(self)@ == counted_up(old(self)@, 1),
    {
        self.inc_by(1);
    }

    /// Counts `count` more pages.
    pub fn inc_by(&mut self, count: usize)
        ensures
            final(self)@ == counted_up(old(self)@, count),
    {
        self.count = self.count.wrapping_add(count);
    }

    /// Counts one page less.
    pub fn dec(&mut self)
        ensures
            final(self)@ == counted_down(old(self)@, 1),
    {
        self.dec_by(1);
    }

    /// Counts `count` pages less.
    pub fn dec_by(&mut self, count: usize)
        ensures
            final(self)@ == counted_down(old(self)@, count),
    {
        self.count = self.count.wrapping_sub(count);
    }

    /// The count.
    pub fn get(&self) -> (res: usize)
        ensures
            res == self@,
    {
        self.count
    }
}

/// Returns the number of tracked pages that are allocated at the moment.
pub fn allocated_pages_count(counter: &PageCounter) -> (res: usize)
    ensures
        res == counter@,
{
    counter.get()
}

/// What another process needs to build the same allocator: nothing for an
/// allocator that keeps its pages on the heap, the file for one that keeps
/// them in a file.
#[derive(Clone, Copy, Debug, PartialEq, Eq, Structural)]
pub enum PageAllocatorSerialization {
    Heap,
    Mmap(FileDescriptor),
}

/// A page with its index, as it is sent to another process.
#[derive(Debug)]
pub struct PageSerialization {
    pub index: PageIndex,
    pub bytes: PageBytes,
}

/// Pages that have changed, as they are sent to another process: none; the
/// bytes of pages that lie on the heap; or, for pages that lie in the file of
/// the allocator, the offset of each page in the file, all of which are
/// smaller than the length of the file.
#[derive(Debug)]
pub enum PageDeltaSerialization {
    Empty,
    Heap(Vec<PageSerialization>),
    Mmap { file_len: FileOffset, pages: Vec<(PageIndex, FileOffset)> },
}

/// The pages of a memory: a page that is not listed holds zeros. Where an
/// index is listed twice, the first entry counts.
#[derive(Clone, Debug)]
pub struct PageMap {
    pages: Vec<(PageIndex, PageBytes)>,
}

/// The bytes that a list of pages holds for the page `index`: those of the
/// first entry with that index, zeros if there is none.
pub open spec fn page_in(pages: Seq<(PageIndex, PageBytes)>, index: u64) -> Seq<u8>
    decreases pages.len(),
{
    if pages.len() == 0 {
        Seq::new(4096, |i: int| 0u8)
    } else if pages[0].0.0 == index {
        pages[0].1@
    } else {
        page_in(pages.drop_first(), index)
    }
}

impl PageMap {
    pub closed spec fn pages(&self) -> Seq<(PageIndex, PageBytes)> {
        self.pages@
    }

    /// The bytes of the page `index`.
    pub open spec fn page(&self, index: u64) -> Seq<u8> {
        page_in(self.pages(), index)
    }

    /// A memory of zeros.
    pub fn new() -> (res: Self)
        ensures
            res.pages() == Seq::<(PageIndex, PageBytes)>::empty(),
    {
        PageMap { pages: Vec::new() }
    }

    /// The memory that holds the given pages; where an index occurs twice,
    /// the first entry counts.
    pub fn from_pages(pages: Vec<(PageIndex, PageBytes)>) -> (res: Self)
        ensures
            res.pages() == pages@,
    {
        PageMap { pages }
    }

    /// The bytes of one page.
    pub fn get_page(&self, index: PageIndex) -> (res: PageBytes)
        ensures
            res@ == self.page(index.0),
    {
        let mut i: usize = 0;
        assert(self.pages@.subrange(0, self.pages.len() as int) =~= self.pages@);
        while i < self.pages.len()
            invariant
                i <= self.pages.len(),
                page_in(self.pages@, index.0) == page_in(
                    self.pages@.subrange(i as int, self.pages.len() as int),
                    index.0,
                ),
            decreases self.pages.len() - i,
        {
            let ghost rest = self.pages@.subrange(i as int, self.pages.len() as int);
            if self.pages[i].0.0 == index.0 {
                assert(rest[0] == self.pages@[i as int]);
                return self.pages[i].1;
            }
            assert(rest.drop_first() =~= self.pages@.subrange(i + 1, self.pages.len() as int));
            assert(rest[0] == self.pages@[i as int]);
            i += 1;
        }
        assert(self.pages@.subrange(i as int, self.pages.len() as int).len() == 0);
        let zeros = [0u8; 4096];
        assert(zeros@ =~= Seq::new(4096, |i: int| 0u8));
        zeros
    }

    /// The pages with the given indices as they are sent to another process:
    /// one entry for each index, in their order, with the bytes of the page.
    pub fn serialize_delta(&self, indices: &Vec<PageIndex>) -> (res: PageDeltaSerialization)
        ensures
            indices.len() == 0 ==> res is Empty,
            indices.len() > 0 ==> (res matches PageDeltaSerialization::Heap(pages) && {
                &&& pages@.len() == indices.len()
                &&& forall|i: int|
                    0 <= i < pages@.len() ==> (#[trigger] pages@[i]).index == indices@[i]
                        && pages@[i].bytes@ == self.page(indices@[i].0)
            }),
    {
        if indices.len() == 0 {
            return PageDeltaSerialization::Empty;
        }
        let mut out: Vec<PageSerialization> = Vec::new();
        let mut i: usize = 0;
        while i < indices.len()
            invariant
                i <= indices.len(),
                out@.len() == i,
                forall|k: int|
                    0 <= k < i ==> (#[trigger] out@[k]).index == indices@[k] && out@[k].bytes@
                        == self.page(indices@[k].0),
            decreases indices.len() - i,
        {
            out.push(PageSerialization { index: indices[i], bytes: self.get_page(indices[i]) });
            i += 1;
        }
        PageDeltaSerialization::Heap(out)
    }
}


/// The bytes of a page with `slice` written at `offset`.
pub open spec fn overwritten_at(bytes: Seq<u8>, offset: int, slice: Seq<u8>) -> Seq<u8> {
    Seq::new(
        bytes.len(),
        |i: int|
            if offset <= i < offset + slice.len() {
                slice[i - offset]
            } else {
                bytes[i]
            },
    )
}

/// A page of 4 KiB as an allocator keeps it.
pub trait PageInner: Sized {
    /// The bytes of the page.
    spec fn bytes(&self) -> Seq<u8>;

    /// The contents of the page.
    fn contents(&self) -> (res: &PageBytes)
        ensures
            res@ == self.bytes(),
    ;

    /// Writes `slice` into the page at `offset`.
    fn copy_from_slice(&mut self, offset: usize, slice: &[u8])
        requires
            offset + slice@.len() <= PAGE_SIZE,
        ensures
            final(self).bytes() == overwritten_at(old(self).bytes(), offset as int, slice@),
    ;
}

/// A page that any number of page maps can share. The only way to make one
/// is to ask an allocator.
pub struct Page<P: PageInner>(pub Arc<P>);

impl<P: PageInner> Page<P> {
    /// The contents of the page: always 4 KiB.
    pub fn contents(&self) -> (res: &PageBytes)
        ensures
            res@ == self.0.bytes(),
    {
        self.0.contents()
    }
}

/// What makes pages and hands them from one process to another.
pub trait PageAllocatorInner: Sized {
    type PageInner: PageInner;

    /// The allocator can take pages that were sent in this form.
    spec fn accepts(delta: &PageDeltaSerialization) -> bool;

    /// An allocator of this kind can be built from this.
    spec fn builds_from(serialized: &PageAllocatorSerialization) -> bool;

    /// Builds the allocator in another process from what `serialize` gave.
    fn deserialize(serialized_page_allocator: PageAllocatorSerialization) -> Self
        requires
            Self::builds_from(&serialized_page_allocator),
    ;

    /// Makes one page for each of the given ones, with the same index and
    /// the same contents, in the same order.
    fn allocate(&self, pages: &Vec<(PageIndex, PageBytes)>) -> (res: Vec<
        (PageIndex, Page<Self::PageInner>),
    >)
        ensures
            res@.len() == pages@.len(),
            forall|i: int|
                0 <= i < res@.len() ==> (#[trigger] res@[i]).0 == pages@[i].0
                    && res@[i].1.0.bytes() == pages@[i].1@,
    ;

    /// What another process needs to build the same allocator.
    fn serialize(&self) -> (res: PageAllocatorSerialization)
        ensures
            Self::builds_from(&res),
    ;

    /// The pages as they are sent to another process: one entry for each
    /// page, in their order. What is sent is accepted by the allocator that
    /// is built from what `serialize` gives.
    fn serialize_page_delta(&self, page_delta: &Vec<(PageIndex, Page<Self::PageInner>)>) -> (res:
        PageDeltaSerialization)
        ensures
            Self::accepts(&res),
    ;

    /// Makes the pages that were sent.
    fn deserialize_page_delta(&self, page_delta: PageDeltaSerialization) -> (res: Vec<
        (PageIndex, Page<Self::PageInner>),
    >)
        requires
            Self::accepts(&page_delta),
    ;
}

/// A page on the heap.
pub struct HeapBasedPage(pub Box<PageBytes>);

impl PageInner for HeapBasedPage {
    open spec fn bytes(&self) -> Seq<u8> {
        self.0@
    }

    fn contents(&self) -> (res: &PageBytes) {
        &*self.0
    }

    fn copy_from_slice(&mut self, offset: usize, slice: &[u8]) {
        let mut i: usize = 0;
        while i < slice.len()
            invariant
                i <= slice@.len(),
                offset + slice@.len() <= PAGE_SIZE,
                self.0@.len() == 4096,
                old(self).0@.len() == 4096,
                forall|k: int|
                    0 <= k < 4096 ==> self.0@[k] == if offset <= k < offset + i {
                        slice@[k - offset]
                    } else {
                        old(self).0@[k]
                    },
            decreases slice.len() - i,
        {
            let byte = slice[i];
            write_at(&mut self.0, offset + i, byte);
            i += 1;
        }
        assert(self.0@ =~= overwritten_at(old(self).0@, offset as int, slice@));
    }
}

fn write_at(image: &mut PageBytes, at: usize, byte: u8)
    requires
        at < PAGE_SIZE,
    ensures
        final(image)@ == old(image)@.update(at as int, byte),
{
    image[at] = byte;
}

/// An allocator that keeps its pages on the heap. Its pages are sent to
/// another process by copying their bytes.
pub struct HeapBasedPageAllocator {}

/// The pages that were sent by their bytes.
pub open spec fn sent_pages(delta: PageDeltaSerialization) -> Seq<PageSerialization> {
    match delta {
        PageDeltaSerialization::Heap(pages) => pages@,
        _ => Seq::empty(),
    }
}

impl HeapBasedPageAllocator {
    pub fn new() -> Self {
        HeapBasedPageAllocator {  }
    }

    /// Builds the allocator in another process, if what was sent names an
    /// allocator on the heap. An allocator on the heap needs nothing else;
    /// what an allocator in a file sent names no allocator on the heap.
    pub fn try_deserialize(serialized: PageAllocatorSerialization) -> (res: Option<Self>)
        ensures
            res is Some <==> serialized is Heap,
    {
        match serialized {
            PageAllocatorSerialization::Heap => Some(HeapBasedPageAllocator {  }),
            PageAllocatorSerialization::Mmap(_) => None,
        }
    }
}

impl PageAllocatorInner for HeapBasedPageAllocator {
    type PageInner = HeapBasedPage;

    open spec fn accepts(delta: &PageDeltaSerialization) -> bool {
        !(delta is Mmap)
    }

    open spec fn builds_from(serialized: &PageAllocatorSerialization) -> bool {
        serialized is Heap
    }

    fn deserialize(serialized_page_allocator: PageAllocatorSerialization) -> Self {
        HeapBasedPageAllocator {  }
    }

    fn allocate(&self, pages: &Vec<(PageIndex, PageBytes)>) -> (res: Vec<
        (PageIndex, Page<HeapBasedPage>),
    >) {
        let mut out: Vec<(PageIndex, Page<HeapBasedPage>)> = Vec::new();
        let mut i: usize = 0;
        while i < pages.len()
            invariant
                i <= pages.len(),
                out@.len() == i,
                forall|k: int|
                    0 <= k < i ==> (#[trigger] out@[k]).0 == pages@[k].0 && out@[k].1.0.bytes()
                        == pages@[k].1@,
            decreases pages.len() - i,
        {
            out.push((pages[i].0, Page(Arc::new(HeapBasedPage(Box::new(pages[i].1))))));
            i += 1;
        }
        out
    }

    fn serialize(&self) -> (res: PageAllocatorSerialization)
        ensures
            res is Heap,
    {
        PageAllocatorSerialization::Heap
    }

    fn serialize_page_delta(&self, page_delta: &Vec<(PageIndex, Page<HeapBasedPage>)>) -> (res:
        PageDeltaSerialization)
        ensures
            res is Heap,
            sent_pages(res).len() == page_delta@.len(),
            forall|i: int|
                0 <= i < page_delta@.len() ==> (#[trigger] sent_pages(res)[i]).index
                    == page_delta@[i].0 && sent_pages(res)[i].bytes@ == page_delta@[i].1.0.bytes(),
    {
        let mut out: Vec<PageSerialization> = Vec::new();
        let mut i: usize = 0;
        while i < page_delta.len()
            invariant
                i <= page_delta.len(),
                out@.len() == i,
                forall|k: int|
                    0 <= k < i ==> (#[trigger] out@[k]).index == page_delta@[k].0 && out@[k].bytes@
                        == page_delta@[k].1.0.bytes(),
            decreases page_delta.len() - i,
        {
            out.push(
                PageSerialization { index: page_delta[i].0, bytes: *page_delta[i].1.contents() },
            );
            i += 1;
        }
        PageDeltaSerialization::Heap(out)
    }

    fn deserialize_page_delta(&self, page_delta: PageDeltaSerialization) -> (res: Vec<
        (PageIndex, Page<HeapBasedPage>),
    >)
        ensures
            res@.len() == sent_pages(page_delta).len(),
            forall|i: int|
                0 <= i < res@.len() ==> (#[trigger] res@[i]).0 == sent_pages(page_delta)[i].index
                    && res@[i].1.0.bytes() == sent_pages(page_delta)[i].bytes@,
    {
        let mut out: Vec<(PageIndex, Page<HeapBasedPage>)> = Vec::new();
        match page_delta {
            PageDeltaSerialization::Heap(pages) => {
                let mut i: usize = 0;
                while i < pages.len()
                    invariant
                        i <= pages.len(),
                        out@.len() == i,
                        forall|k: int|
                            0 <= k < i ==> (#[trigger] out@[k]).0 == pages@[k].index
                                && out@[k].1.0.bytes() == pages@[k].bytes@,
                    decreases pages.len() - i,
                {
                    out.push(
                        (pages[i].index, Page(Arc::new(HeapBasedPage(Box::new(pages[i].bytes))))),
                    );
                    i += 1;
                }
            },
            _ => {},
        }
        out
    }
}

/// Pages that are sent to another process and made there again have the
/// indices and the contents of the pages that were sent, in the same order.
pub proof fn lemma_heap_pages_survive_sending(
    sent: Seq<(PageIndex, Page<HeapBasedPage>)>,
    delta: PageDeltaSerialization,
    made: Seq<(PageIndex, Page<HeapBasedPage>)>,
)
    requires
        delta is Heap,
        sent_pages(delta).len() == sent.len(),
        forall|i: int|
            0 <= i < sent.len() ==> (#[trigger] sent_pages(delta)[i]).index == sent[i].0
                && sent_pages(delta)[i].bytes@ == sent[i].1.0.bytes(),
        made.len() == sent_pages(delta).len(),
        forall|i: int|
            0 <= i < made.len() ==> (#[trigger] made[i]).0 == sent_pages(delta)[i].index
                && made[i].1.0.bytes() == sent_pages(delta)[i].bytes@,
    ensures
        made.len() == sent.len(),
        forall|i: int|
            0 <= i < made.len() ==> (#[trigger] made[i]).0 == sent[i].0 && made[i].1.0.bytes()
                == sent[i].1.0.bytes(),
{
    assert forall|i: int| 0 <= i < made.len() implies (#[trigger] made[i]).0 == sent[i].0
        && made[i].1.0.bytes() == sent[i].1.0.bytes() by {
        assert(sent_pages(delta)[i].index == sent[i].0);
    }
}

} // verus!
