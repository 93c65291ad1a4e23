//! The initial contents of a linear memory: data segments, and the pages
//! that they fill.

use crate::errors::{InstrumentationErrorView, WasmInstrumentationError};
use vstd::prelude::*;

verus! {

/// Size of a page of a memory snapshot, in bytes.
pub const PAGE_SIZE: usize = 4096;

/// Size of a page of WebAssembly memory, in bytes.
pub const WASM_PAGE_SIZE_IN_BYTES: usize = 65536;

/// The bytes of one page.
pub type PageBytes = [u8; PAGE_SIZE];

/// The number of a page in a memory.
#[derive(Clone, Copy, Debug, PartialEq, Eq, Structural)]
pub struct PageIndex(pub u64);

impl PageIndex {
    pub fn new(index: u64) -> (res: Self)
        ensures
            res.0 == index,
    {
        PageIndex(index)
    }

    pub fn get(&self) -> (res: u64)
        ensures
            res == self.0,
    {
        self.0
    }
}

/// A number of pages of WebAssembly memory.
#[derive(Clone, Copy, Debug, PartialEq, Eq, Structural)]
pub struct NumWasmPages(pub usize);

impl NumWasmPages {
    pub fn new(pages: usize) -> (res: Self)
        ensures
            res.0 == pages,
    {
        NumWasmPages(pages)
    }

    pub fn get(&self) -> (res: usize)
        ensures
            res == self.0,
    {
        self.0
    }
}

/// Chunks of data with the offsets at which they lie in memory, in the order
/// in which they are written: where two chunks overlap, the later one stays.
pub struct Segments(Vec<(usize, Vec<u8>)>);

/// A segment as a mathematical value: its offset and its bytes.
pub type SegmentView = (usize, Seq<u8>);

/// The address behind the last byte of a segment.
pub open spec fn segment_end(segment: SegmentView) -> int {
    segment.0 + segment.1.len()
}

/// The segment lies inside a memory of `pages` WebAssembly pages.
pub open spec fn segment_fits(segment: SegmentView, pages: usize) -> bool {
    segment_end(segment) <= pages * 65536
}

/// The byte at `addr` once the first `n` segments have been written to a
/// memory of zeros.
pub open spec fn byte_at(segments: Seq<SegmentView>, n: int, addr: int) -> u8
    decreases n,
{
    if n <= 0 {
        0
    } else if segments[n - 1].0 <= addr < segment_end(segments[n - 1]) {
        segments[n - 1].1[addr - segments[n - 1].0]
    } else {
        byte_at(segments, n - 1, addr)
    }
}

/// The pages that the first `written` bytes of a segment reach.
pub open spec fn reaches(segment: SegmentView, written: int, page: int) -> bool {
    written > 0 && segment.0 / 4096 <= page <= (segment.0 + written - 1) / 4096
}

/// A segment touches every page that holds one of its bytes. An empty
/// segment touches the page in which its offset lies.
pub open spec fn touches(segment: SegmentView, page: int) -> bool {
    if segment.1.len() == 0 {
        page == segment.0 / 4096
    } else {
        reaches(segment, segment.1.len() as int, page)
    }
}

/// One of the first `n` segments touches the page.
pub open spec fn touched(segments: Seq<SegmentView>, n: int, page: int) -> bool {
    exists|i: int| 0 <= i < n && #[trigger] touches(segments[i], page)
}

/// The pages are in order of their index, and none occurs twice.
pub open spec fn pages_in_order(pages: Seq<(PageIndex, PageBytes)>) -> bool {
    forall|i: int, j: int| 0 <= i < j < pages.len() ==> pages[i].0.0 < pages[j].0.0
}

pub open spec fn has_page(pages: Seq<(PageIndex, PageBytes)>, page: int) -> bool {
    exists|k: int| 0 <= k < pages.len() && #[trigger] pages[k].0.0 == page
}

/// The pages are those that the first `n` segments touch and that the first
/// `reached` bytes of the next one reach, and they hold what the first `n`
/// segments and the first `written` bytes of the next one leave in a memory
/// of zeros.
pub open spec fn pages_hold(
    pages: Seq<(PageIndex, PageBytes)>,
    segments: Seq<SegmentView>,
    n: int,
    reached: int,
    written: int,
) -> bool {
    &&& pages_in_order(pages)
    &&& forall|page: int|
        has_page(pages, page) <==> (touched(segments, n, page) || (n < segments.len() && reaches(
            segments[n],
            reached,
            page,
        )))
    &&& forall|k: int, j: int|
        0 <= k < pages.len() && 0 <= j < 4096 ==> #[trigger] pages[k].1@[j] == byte_during(
            segments,
            n,
            written,
            pages[k].0.0 * 4096 + j,
        )
}

/// The byte at `addr` once the first `n` segments and the first `written`
/// bytes of the next one have been written.
pub open spec fn byte_during(segments: Seq<SegmentView>, n: int, written: int, addr: int) -> u8 {
    if 0 <= n < segments.len() && segments[n].0 <= addr < segments[n].0 + written {
        segments[n].1[addr - segments[n].0]
    } else {
        byte_at(segments, n, addr)
    }
}

/// The pages of the initial memory: every page that a segment touches, once,
/// in order of the page index, with the bytes that the segments leave there.
pub open spec fn is_page_image(pages: Seq<(PageIndex, PageBytes)>, segments: Seq<SegmentView>)
    -> bool {
    &&& pages_in_order(pages)
    &&& forall|page: int| has_page(pages, page) <==> touched(segments, segments.len() as int, page)
    &&& forall|k: int, j: int|
        0 <= k < pages.len() && 0 <= j < 4096 ==> #[trigger] pages[k].1@[j] == byte_at(
            segments,
            segments.len() as int,
            pages[k].0.0 * 4096 + j,
        )
}

/// Where no segment touches a page, its bytes are zero.
pub proof fn lemma_untouched_is_zero(segments: Seq<SegmentView>, n: int, addr: int)
    requires
        0 <= n <= segments.len(),
        0 <= addr,
        !touched(segments, n, addr / 4096),
    ensures
        byte_at(segments, n, addr) == 0,
    decreases n,
{
    if n > 0 {
        assert(!touches(segments[n - 1], addr / 4096));
        assert forall|i: int| 0 <= i < n - 1 implies !#[trigger] touches(
            segments[i],
            addr / 4096,
        ) by {}
        lemma_untouched_is_zero(segments, n - 1, addr);
    }
}

impl View for Segments {
    type V = Seq<SegmentView>;

    closed spec fn view(&self) -> Seq<SegmentView> {
        Seq::new(self.0.len() as nat, |i: int| (self.0[i].0, self.0[i].1@))
    }
}

fn find_or_insert(out: &mut Vec<(PageIndex, PageBytes)>, page: u64) -> (idx: usize)
    requires
        pages_in_order(old(out)@),
    ensures
        pages_in_order(final(out)@),
        idx < final(out).len(),
        final(out)@[idx as int].0.0 == page,
        has_page(old(out)@, page as int) ==> final(out)@ == old(out)@,
        !has_page(old(out)@, page as int) ==> {
            &&& final(out)@.len() == old(out)@.len() + 1
            &&& forall|j: int| 0 <= j < 4096 ==> final(out)@[idx as int].1@[j] == 0
            &&& forall|k: int| 0 <= k < idx ==> final(out)@[k] == old(out)@[k]
            &&& forall|k: int| idx < k < final(out)@.len() ==> final(out)@[k] == old(out)@[k - 1]
        },
{
    let mut idx: usize = out.len();
    while idx > 0 && out[idx - 1].0.0 > page
        invariant
            idx <= out.len(),
            out@ == old(out)@,
            forall|k: int| idx <= k < out.len() ==> out@[k].0.0 > page,
        decreases idx,
    {
        idx -= 1;
    }
    if idx > 0 && out[idx - 1].0.0 == page {
        assert(has_page(old(out)@, page as int));
        idx - 1
    } else {
        assert(!has_page(old(out)@, page as int)) by {
            if has_page(old(out)@, page as int) {
                let k = choose|k: int| 0 <= k < old(out)@.len() && #[trigger] old(out)@[k].0.0
                    == page;
                if k < idx - 1 {
                    assert(old(out)@[k].0.0 < old(out)@[idx - 1].0.0);
                }
            }
        }
        out.insert(idx, (PageIndex(page), [0u8; PAGE_SIZE]));
        assert forall|i: int, j: int| 0 <= i < j < out@.len() implies out@[i].0.0
            < out@[j].0.0 by {
            if i < idx && j > idx {
                assert(old(out)@[i].0.0 < old(out)@[j - 1].0.0 || i == j - 1);
                if idx > 0 {
                    assert(old(out)@[i].0.0 <= old(out)@[idx - 1].0.0);
                }
            } else if i < idx && j == idx {
                assert(old(out)@[i].0.0 <= old(out)@[idx - 1].0.0);
            } else if i == idx {
            } else if i > idx {
                assert(old(out)@[i - 1].0.0 < old(out)@[j - 1].0.0);
            }
        }
        idx
    }
}


fn write_byte(image: &mut PageBytes, at: usize, byte: u8)
    requires
        at < PAGE_SIZE,
    ensures
        final(image)@ == old(image)@.update(at as int, byte),
{
    image[at] = byte;
}

proof fn lemma_next_segment(pages: Seq<(PageIndex, PageBytes)>, segments: Seq<SegmentView>, n: int)
    requires
        0 <= n < segments.len(),
        segments[n].1.len() > 0,
        pages_hold(pages, segments, n, segments[n].1.len() as int, segments[n].1.len() as int),
    ensures
        pages_hold(pages, segments, n + 1, 0, 0),
{
    let len = segments[n].1.len() as int;
    assert forall|page: int| has_page(pages, page) <==> (touched(segments, n + 1, page) || (n + 1
        < segments.len() && reaches(segments[n + 1], 0, page))) by {
        if touched(segments, n + 1, page) {
            let i = choose|i: int| 0 <= i < n + 1 && #[trigger] touches(segments[i], page);
            if i < n {
                assert(touched(segments, n, page));
            }
        }
        if touched(segments, n, page) {
            let i = choose|i: int| 0 <= i < n && #[trigger] touches(segments[i], page);
            assert(0 <= i < n + 1 && touches(segments[i], page));
        }
        if reaches(segments[n], len, page) {
            assert(touches(segments[n], page));
        }
    }
}

proof fn lemma_empty_segment(
    before: Seq<(PageIndex, PageBytes)>,
    pages: Seq<(PageIndex, PageBytes)>,
    idx: int,
    segments: Seq<SegmentView>,
    n: int,
)
    requires
        0 <= n < segments.len(),
        segments[n].1.len() == 0,
        pages_hold(before, segments, n, 0, 0),
        page_added(before, pages, idx, segments[n].0 as int / 4096),
    ensures
        pages_hold(pages, segments, n + 1, 0, 0),
{
    let p = segments[n].0 as int / 4096;
    lemma_page_added(before, pages, idx, p);
    assert forall|page: int| has_page(pages, page) <==> (touched(segments, n + 1, page) || (n + 1
        < segments.len() && reaches(segments[n + 1], 0, page))) by {
        if touched(segments, n + 1, page) {
            let i = choose|i: int| 0 <= i < n + 1 && #[trigger] touches(segments[i], page);
            if i < n {
                assert(touched(segments, n, page));
            }
        }
        if touched(segments, n, page) {
            let i = choose|i: int| 0 <= i < n && #[trigger] touches(segments[i], page);
            assert(0 <= i < n + 1 && touches(segments[i], page));
        }
        if page == p {
            assert(touches(segments[n], page));
        }
    }
    assert forall|k: int, j: int| 0 <= k < pages.len() && 0 <= j < 4096 implies #[trigger] pages[k].1@[j]
        == byte_during(segments, n + 1, 0, pages[k].0.0 * 4096 + j) by {
        let addr = pages[k].0.0 * 4096 + j;
        lemma_added_content(before, pages, idx, p, k, j);
        if !has_page(before, pages[k].0.0 as int) {
            assert(addr / 4096 == pages[k].0.0);
            lemma_untouched_is_zero(segments, n, addr);
        } else {
            let kk = choose|kk: int| 0 <= kk < before.len() && #[trigger] before[kk].0.0
                == pages[k].0.0;
            assert(before[kk].1@[j] == byte_during(segments, n, 0, before[kk].0.0 * 4096 + j));
        }
    }
}

/// `after` is `before` with the page `page` added at `idx` as a page of
/// zeros, unless `before` holds it already.
pub open spec fn page_added(
    before: Seq<(PageIndex, PageBytes)>,
    after: Seq<(PageIndex, PageBytes)>,
    idx: int,
    page: int,
) -> bool {
    &&& pages_in_order(before)
    &&& pages_in_order(after)
    &&& 0 <= idx < after.len()
    &&& after[idx].0.0 == page
    &&& has_page(before, page) ==> after == before
    &&& !has_page(before, page) ==> {
        &&& after.len() == before.len() + 1
        &&& forall|j: int| 0 <= j < 4096 ==> after[idx].1@[j] == 0
        &&& forall|k: int| 0 <= k < idx ==> after[k] == before[k]
        &&& forall|k: int| idx < k < after.len() ==> after[k] == before[k - 1]
    }
}

proof fn lemma_page_added(
    before: Seq<(PageIndex, PageBytes)>,
    after: Seq<(PageIndex, PageBytes)>,
    idx: int,
    page: int,
)
    requires
        page_added(before, after, idx, page),
    ensures
        forall|q: int| has_page(after, q) <==> (has_page(before, q) || q == page),
{
    assert forall|q: int| has_page(after, q) <==> (has_page(before, q) || q == page) by {
        if has_page(before, page) {
        } else {
            if has_page(after, q) {
                let k = choose|k: int| 0 <= k < after.len() && #[trigger] after[k].0.0 == q;
                if k < idx {
                    assert(before[k].0.0 == q);
                } else if k > idx {
                    assert(before[k - 1].0.0 == q);
                }
            }
            if has_page(before, q) {
                let k = choose|k: int| 0 <= k < before.len() && #[trigger] before[k].0.0 == q;
                if k < idx {
                    assert(after[k].0.0 == q);
                } else {
                    assert(after[k + 1].0.0 == q);
                }
            }
            if q == page {
                assert(after[idx].0.0 == q);
            }
        }
    }
}

proof fn lemma_added_content(
    before: Seq<(PageIndex, PageBytes)>,
    after: Seq<(PageIndex, PageBytes)>,
    idx: int,
    page: int,
    k: int,
    j: int,
)
    requires
        page_added(before, after, idx, page),
        0 <= k < after.len(),
        0 <= j < 4096,
    ensures
        !has_page(before, after[k].0.0 as int) ==> after[k].1@[j] == 0,
        has_page(before, after[k].0.0 as int) ==> exists|kk: int|
            0 <= kk < before.len() && #[trigger] before[kk].0.0 == after[k].0.0 && before[kk]
                == after[k],
{
    if has_page(before, page) {
        assert(before[k].0.0 == after[k].0.0);
    } else {
        if k < idx {
            assert(before[k].0.0 == after[k].0.0);
        } else if k > idx {
            assert(before[k - 1].0.0 == after[k].0.0);
        }
    }
}

impl Segments {
    /// The segments.
    pub fn as_slice(&self) -> (res: &[(usize, Vec<u8>)])
        ensures
            res@.len() == self@.len(),
            forall|i: int|
                0 <= i < res@.len() ==> res@[i].0 == self@[i].0 && res@[i].1@ == self@[i].1,
    {
        self.0.as_slice()
    }

    /// Checks that every segment lies inside a memory of `initial_wasm_pages`
    /// pages. The error names the first segment that does not.
    pub fn validate(&self, initial_wasm_pages: NumWasmPages) -> (res: Result<
        (),
        WasmInstrumentationError,
    >)
        ensures
            res is Ok <==> forall|i: int|
                0 <= i < self@.len() ==> segment_fits(#[trigger] self@[i], initial_wasm_pages.0),
            res matches Err(e) ==> exists|k: int|
                first_misfit(self@, initial_wasm_pages.0, k) && e@
                    == (InstrumentationErrorView::InvalidDataSegment {
                    offset: self@[k].0,
                    len: self@[k].1.len() as usize,
                }),
    {
        let pages = initial_wasm_pages.get();
        let initial_memory_size: u128 = (pages as u128) * (WASM_PAGE_SIZE_IN_BYTES as u128);
        let mut i: usize = 0;
        while i < self.0.len()
            invariant
                i <= self.0.len(),
                initial_memory_size == pages * 65536,
                pages == initial_wasm_pages.0,
                forall|j: int| 0 <= j < i ==> segment_fits(#[trigger] self@[j], pages),
            decreases self.0.len() - i,
        {
            let offset = self.0[i].0;
            let len = self.0[i].1.len();
            if (offset as u128) + (len as u128) > initial_memory_size {
                assert(first_misfit(self@, pages, i as int));
                return Err(WasmInstrumentationError::InvalidDataSegment { offset, len });
            }
            i += 1;
        }
        Ok(())
    }

    /// Lays the segments out in pages: every page that a segment touches,
    /// once, in order of the page index, with the bytes that the segments
    /// leave there and zeros elsewhere.
    pub fn as_pages(self) -> (res: Vec<(PageIndex, PageBytes)>)
        requires
            forall|i: int| 0 <= i < self@.len() ==> segment_end(#[trigger] self@[i]) <= usize::MAX,
        ensures
            is_page_image(res@, self@),
    {
        let mut out: Vec<(PageIndex, PageBytes)> = Vec::new();
        let mut s: usize = 0;
        assert(pages_hold(out@, self@, 0, 0, 0)) by {
            assert forall|page: int| !has_page(out@, page) by {}
            assert forall|page: int| !touched(self@, 0, page) by {}
        }
        while s < self.0.len()
            invariant
                s <= self.0.len(),
                self.0.len() == self@.len(),
                forall|i: int|
                    0 <= i < self@.len() ==> segment_end(#[trigger] self@[i]) <= usize::MAX,
                pages_hold(out@, self@, s as int, 0, 0),
            decreases self.0.len() - s,
        {
            let offset = self.0[s].0;
            let len = self.0[s].1.len();
            assert(self@[s as int] == (offset, self.0[s as int].1@));
            assert(segment_end(self@[s as int]) <= usize::MAX);
            if len == 0 {
                let ghost before = out@;
                let idx = find_or_insert(&mut out, (offset / PAGE_SIZE) as u64);
                proof {
                    lemma_empty_segment(before, out@, idx as int, self@, s as int);
                }
            } else {
                let mut pos: usize = 0;
                let mut idx: usize = 0;
                while pos < len
                    invariant
                        pos <= len,
                        s < self.0.len(),
                        self.0.len() == self@.len(),
                        self@[s as int] == (offset, self.0[s as int].1@),
                        len == self.0[s as int].1.len(),
                        offset + len <= usize::MAX,
                        pages_hold(out@, self@, s as int, pos as int, pos as int),
                        pos > 0 ==> idx < out.len() && out@[idx as int].0.0 == (offset + pos - 1)
                            / 4096,
                    decreases len - pos,
                {
                    let addr = offset + pos;
                    let local = addr % PAGE_SIZE;
                    let ghost before = out@;
                    if pos == 0 || local == 0 {
                        idx = find_or_insert(&mut out, (addr / PAGE_SIZE) as u64);
                        proof {
                            lemma_reach(before, out@, idx as int, self@, s as int, pos as int);
                        }
                    } else {
                        assert((offset + pos - 1) / 4096 == (offset + pos) / 4096);
                        assert(pages_hold(out@, self@, s as int, pos + 1, pos as int));
                    }
                    let ghost reached = out@;
                    let byte = self.0[s].1[pos];
                    write_byte(&mut out[idx].1, local, byte);
                    proof {
                        lemma_write(reached, out@, idx as int, self@, s as int, pos as int);
                    }
                    pos += 1;
                }
                proof {
                    lemma_next_segment(out@, self@, s as int);
                }
            }
            s += 1;
        }
        out
    }
}

proof fn lemma_reach(
    before: Seq<(PageIndex, PageBytes)>,
    pages: Seq<(PageIndex, PageBytes)>,
    idx: int,
    segments: Seq<SegmentView>,
    n: int,
    pos: int,
)
    requires
        0 <= n < segments.len(),
        0 <= pos < segments[n].1.len(),
        pages_hold(before, segments, n, pos, pos),
        page_added(before, pages, idx, (segments[n].0 + pos) / 4096),
    ensures
        pages_hold(pages, segments, n, pos + 1, pos),
{
    let p = (segments[n].0 + pos) / 4096;
    lemma_page_added(before, pages, idx, p);
    assert forall|k: int, j: int| 0 <= k < pages.len() && 0 <= j < 4096 implies #[trigger] pages[k].1@[j]
        == byte_during(segments, n, pos, pages[k].0.0 * 4096 + j) by {
        let addr = pages[k].0.0 * 4096 + j;
        lemma_added_content(before, pages, idx, p, k, j);
        if !has_page(before, pages[k].0.0 as int) {
            assert(addr / 4096 == pages[k].0.0);
            lemma_untouched_is_zero(segments, n, addr);
        } else {
            let kk = choose|kk: int| 0 <= kk < before.len() && #[trigger] before[kk].0.0
                == pages[k].0.0 && before[kk] == pages[k];
            assert(before[kk].1@[j] == byte_during(segments, n, pos, before[kk].0.0 * 4096 + j));
        }
    }
}

proof fn lemma_write(
    before: Seq<(PageIndex, PageBytes)>,
    pages: Seq<(PageIndex, PageBytes)>,
    idx: int,
    segments: Seq<SegmentView>,
    n: int,
    pos: int,
)
    requires
        0 <= n < segments.len(),
        0 <= pos < segments[n].1.len(),
        pages_hold(before, segments, n, pos + 1, pos),
        0 <= idx < before.len(),
        before[idx].0.0 == (segments[n].0 + pos) / 4096,
        pages.len() == before.len(),
        pages[idx].0 == before[idx].0,
        pages[idx].1@ == before[idx].1@.update(
            (segments[n].0 + pos) % 4096,
            segments[n].1[pos],
        ),
        forall|k: int| 0 <= k < before.len() && k != idx ==> pages[k] == before[k],
    ensures
        pages_hold(pages, segments, n, pos + 1, pos + 1),
{
    assert forall|k: int| 0 <= k < pages.len() implies #[trigger] pages[k].0 == before[k].0 by {}
    assert forall|page: int| has_page(pages, page) <==> has_page(before, page) by {
        if has_page(pages, page) {
            let k = choose|k: int| 0 <= k < pages.len() && #[trigger] pages[k].0.0 == page;
            assert(before[k].0.0 == page);
        }
        if has_page(before, page) {
            let k = choose|k: int| 0 <= k < before.len() && #[trigger] before[k].0.0 == page;
            assert(pages[k].0.0 == page);
        }
    }
    assert forall|i: int, j: int| 0 <= i < j < pages.len() implies pages[i].0.0
        < pages[j].0.0 by {
        assert(before[i].0.0 < before[j].0.0);
    }
    let target = segments[n].0 + pos;
    assert forall|k: int, j: int| 0 <= k < pages.len() && 0 <= j < 4096 implies #[trigger] pages[k].1@[j]
        == byte_during(segments, n, pos + 1, pages[k].0.0 * 4096 + j) by {
        let addr = pages[k].0.0 * 4096 + j;
        assert(before[k].1@[j] == byte_during(segments, n, pos, before[k].0.0 * 4096 + j));
        if k == idx {
            if j == target % 4096 {
                assert(addr == target);
            } else {
                assert(addr != target);
            }
        } else {
            if before[k].0.0 == before[idx].0.0 {
                if k < idx {
                    assert(before[k].0.0 < before[idx].0.0);
                } else {
                    assert(before[idx].0.0 < before[k].0.0);
                }
            }
            assert(addr / 4096 != target / 4096);
        }
    }
}

/// The first segment that reaches beyond a memory of `pages` pages is the
/// `k`-th.
pub open spec fn first_misfit(segments: Seq<SegmentView>, pages: usize, k: int) -> bool {
    &&& 0 <= k < segments.len()
    &&& !segment_fits(segments[k], pages)
    &&& forall|j: int| 0 <= j < k ==> segment_fits(#[trigger] segments[j], pages)
}


impl From<Vec<(usize, Vec<u8>)>> for Segments {
    fn from(vec: Vec<(usize, Vec<u8>)>) -> (res: Self) {
        Segments(vec)
    }
}

impl vstd::std_specs::convert::FromSpecImpl<Vec<(usize, Vec<u8>)>> for Segments {
    open spec fn obeys_from_spec() -> bool {
        true
    }

    closed spec fn from_spec(vec: Vec<(usize, Vec<u8>)>) -> Self {
        Segments(vec)
    }
}

impl Segments {
    /// The segments with the given offsets and bytes, in the given order.
    pub fn new(vec: Vec<(usize, Vec<u8>)>) -> (res: Self)
        ensures
            res@.len() == vec@.len(),
            forall|i: int|
                0 <= i < vec@.len() ==> res@[i].0 == vec@[i].0 && res@[i].1 == vec@[i].1@,
    {
        Segments(vec)
    }
}

/// What `Segments::from` makes of a list: the segments with the offsets and
/// the bytes of its entries, in their order.
pub proof fn lemma_segments_from(vec: Vec<(usize, Vec<u8>)>)
    ensures
        <Segments as vstd::std_specs::convert::FromSpec<Vec<(usize, Vec<u8>)>>>::from_spec(vec)@.len()
            == vec@.len(),
        forall|i: int|
            0 <= i < vec@.len() ==> (#[trigger] <Segments as vstd::std_specs::convert::FromSpec<
                Vec<(usize, Vec<u8>)>,
            >>::from_spec(vec)@[i]) == (vec@[i].0, vec@[i].1@),
{
}

/// A segment behind the `i`-th one holds the address.
pub open spec fn overwritten(segments: Seq<SegmentView>, i: int, addr: int) -> bool {
    exists|j: int|
        i < j < segments.len() && (#[trigger] segments[j]).0 <= addr < segment_end(segments[j])
}

/// One of the segments holds the address.
pub open spec fn covered(segments: Seq<SegmentView>, addr: int) -> bool {
    exists|j: int|
        0 <= j < segments.len() && (#[trigger] segments[j]).0 <= addr < segment_end(segments[j])
}

proof fn lemma_byte_of_segment(segments: Seq<SegmentView>, n: int, i: int, addr: int)
    requires
        0 <= i < n <= segments.len(),
        segments[i].0 <= addr < segment_end(segments[i]),
        forall|j: int|
            i < j < n ==> !((#[trigger] segments[j]).0 <= addr < segment_end(segments[j])),
    ensures
        byte_at(segments, n, addr) == segments[i].1[addr - segments[i].0],
    decreases n,
{
    if n - 1 > i {
        assert(!(segments[n - 1].0 <= addr < segment_end(segments[n - 1])));
        lemma_byte_of_segment(segments, n - 1, i, addr);
    }
}

proof fn lemma_byte_uncovered(segments: Seq<SegmentView>, n: int, addr: int)
    requires
        0 <= n <= segments.len(),
        forall|j: int|
            0 <= j < n ==> !((#[trigger] segments[j]).0 <= addr < segment_end(segments[j])),
    ensures
        byte_at(segments, n, addr) == 0,
    decreases n,
{
    if n > 0 {
        assert(!(segments[n - 1].0 <= addr < segment_end(segments[n - 1])));
        lemma_byte_uncovered(segments, n - 1, addr);
    }
}

/// The pages hold `value` at the address `addr`.
pub open spec fn holds_byte(pages: Seq<(PageIndex, PageBytes)>, addr: int, value: u8) -> bool {
    exists|k: int|
        0 <= k < pages.len() && #[trigger] pages[k].0.0 == addr / 4096 && pages[k].1@[addr % 4096]
            == value
}

/// The pages give the segments back: every byte of a segment that no later
/// segment overwrites stands in the page of its address, at its place in
/// that page; and every byte of a page that no segment holds is zero.
pub proof fn lemma_pages_reconstruct_segments(
    pages: Seq<(PageIndex, PageBytes)>,
    segments: Seq<SegmentView>,
)
    requires
        is_page_image(pages, segments),
    ensures
        forall|i: int, b: int|
            0 <= i < segments.len() && 0 <= b < segments[i].1.len() && !overwritten(
                segments,
                i,
                segments[i].0 + b,
            ) ==> #[trigger] holds_byte(pages, segments[i].0 + b, segments[i].1[b]),
        forall|k: int, j: int|
            0 <= k < pages.len() && 0 <= j < 4096 && !covered(segments, pages[k].0.0 * 4096 + j)
                ==> #[trigger] pages[k].1@[j] == 0,
{
    assert forall|i: int, b: int|
        0 <= i < segments.len() && 0 <= b < segments[i].1.len() && !overwritten(
            segments,
            i,
            segments[i].0 + b,
        ) implies #[trigger] holds_byte(pages, segments[i].0 + b, segments[i].1[b]) by {
        let addr = segments[i].0 + b;
        let page = addr / 4096;
        assert(touches(segments[i], page));
        assert(touched(segments, segments.len() as int, page));
        assert(has_page(pages, page));
        let k = choose|k: int| 0 <= k < pages.len() && #[trigger] pages[k].0.0 == page;
        lemma_byte_of_segment(segments, segments.len() as int, i, addr);
        assert(pages[k].1@[addr % 4096] == byte_at(
            segments,
            segments.len() as int,
            pages[k].0.0 * 4096 + addr % 4096,
        ));
    }
    assert forall|k: int, j: int|
        0 <= k < pages.len() && 0 <= j < 4096 && !covered(
            segments,
            pages[k].0.0 * 4096 + j,
        ) implies #[trigger] pages[k].1@[j] == 0 by {
        lemma_byte_uncovered(segments, segments.len() as int, pages[k].0.0 * 4096 + j);
    }
}

} // verus!
