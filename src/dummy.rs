//! A handler that serves a region from a fixed pattern, with no outside
//! store: the byte at offset `o` is `(o * 13) mod 256`. It decides its reads
//! with the same heuristics as a remote handler.
use crate::heuristics::{
    evicted_from, lemma_readahead_at_least_page, page_range, queue_after_eviction, readahead_spec,
    round_up_spec, PageHeuristics, MAX_LOADED_PAGES, READAHEAD_MARGIN,
};
use crate::pages::{round_up_to_pagesize, PAGE_SIZE};
use vstd::arithmetic::div_mod::lemma_mul_mod_noop_left;
use std::collections::BTreeSet;
use vstd::prelude::*;

verus! {

/// The pattern byte at offset `o`.
pub open spec fn dummy_byte(o: int) -> u8 {
    ((o * 13) % 256) as u8
}

/// The bytes of one page starting at offset `start`.
pub open spec fn dummy_page(start: int) -> Seq<u8> {
    Seq::new(PAGE_SIZE as nat, |i: int| dummy_byte(start + i))
}

/// The length in bytes of the read for a fault at `offset` of an object of
/// `size` bytes, when the heuristics recommend `recommended` bytes: capped
/// at the end of the object and rounded up to whole pages.
pub open spec fn fault_read_len(offset: int, size: int, recommended: int) -> int {
    round_up_spec(if offset + recommended > size { size - offset } else { recommended })
}

/// Computes `fault_read_len` for a fault at `offset`, inside an object of
/// `size` bytes.
pub fn capped_read_len(offset: usize, size: usize, recommended: usize) -> (r: usize)
    requires
        offset < size,
        size + PAGE_SIZE <= usize::MAX,
    ensures
        r == fault_read_len(offset as int, size as int, recommended as int),
        r % PAGE_SIZE == 0,
        r <= size - offset + PAGE_SIZE,
        recommended >= 1 ==> PAGE_SIZE <= r,
{
    let len: usize = if recommended > size - offset {
        size - offset
    } else {
        recommended
    };
    round_up_to_pagesize(len)
}

/// The pages of one fault, produced one at a time.
pub struct DummyPageIterator {
    offset: usize,
    len: usize,
    cursor: usize,
}

impl DummyPageIterator {
    /// Offset in the object of the first page.
    pub closed spec fn spec_offset(&self) -> usize {
        self.offset
    }

    /// Bytes covered, a whole number of pages.
    pub closed spec fn spec_len(&self) -> usize {
        self.len
    }

    /// Bytes already handed out.
    pub closed spec fn spec_cursor(&self) -> usize {
        self.cursor
    }

    pub closed spec fn wf(&self) -> bool {
        &&& self.len % PAGE_SIZE == 0
        &&& self.cursor % PAGE_SIZE == 0
        &&& self.cursor <= self.len
        &&& self.offset + self.len <= usize::MAX
    }

    /// Offset in the object of the first page.
    pub fn offset(&self) -> (r: usize)
        ensures
            r == self.spec_offset(),
    {
        self.offset
    }

    /// The next page of the run: `PAGE_SIZE` pattern bytes, or `None` once
    /// the run is exhausted.
    pub fn next(&mut self) -> (r: Option<Vec<u8>>)
        requires
            old(self).wf(),
        ensures
            final(self).wf(),
            final(self).spec_offset() == old(self).spec_offset(),
            final(self).spec_len() == old(self).spec_len(),
            match r {
                Some(v) => {
                    &&& old(self).spec_cursor() < old(self).spec_len()
                    &&& v@ == dummy_page(old(self).spec_offset() + old(self).spec_cursor())
                    &&& final(self).spec_cursor() == old(self).spec_cursor() + PAGE_SIZE
                },
                None => {
                    &&& old(self).spec_cursor() >= old(self).spec_len()
                    &&& final(self).spec_cursor() == old(self).spec_cursor()
                },
            },
    {
        if self.cursor >= self.len {
            return None;
        }
        let start: usize = self.offset + self.cursor;
        let mut page: Vec<u8> = Vec::with_capacity(PAGE_SIZE);
        let mut i: usize = 0;
        while i < PAGE_SIZE
            invariant
                start + PAGE_SIZE <= usize::MAX,
                start == self.offset + self.cursor,
                i <= PAGE_SIZE,
                page@.len() == i,
                forall|j: int| 0 <= j < i ==> page@[j] == dummy_byte(start + j),
            decreases PAGE_SIZE - i,
        {
            let pos: usize = start + i;
            let b: u8 = (((pos % 256) * 13) % 256) as u8;
            proof {
                lemma_mul_mod_noop_left(pos as int, 13, 256);
            }
            page.push(b);
            i = i + 1;
        }
        self.cursor = self.cursor + PAGE_SIZE;
        assert(page@ =~= dummy_page(start as int));
        Some(page)
    }
}

/// A handler whose object is the pattern `dummy_byte`, of a fixed size.
pub struct MMapDummy {
    heuristics: PageHeuristics,
    sz: usize,
}

impl MMapDummy {
    /// Size of the object in bytes.
    pub closed spec fn spec_size(&self) -> usize {
        self.sz
    }

    /// The residency state.
    pub closed spec fn heuristics(&self) -> PageHeuristics {
        self.heuristics
    }

    pub open spec fn wf(&self) -> bool {
        self.heuristics().wf()
    }

    /// A handler for an object of `size` bytes; reports that size.
    pub fn new(size: usize) -> (r: Result<(MMapDummy, usize), ()>)
        ensures
            match r {
                Ok((d, n)) => {
                    &&& n == size
                    &&& d.spec_size() == size
                    &&& d.wf()
                    &&& d.heuristics().queue() == Seq::<usize>::empty()
                    &&& d.heuristics().resident_pages() == Set::<usize>::empty()
                },
                Err(_) => false,
            },
    {
        let heuristics = PageHeuristics::new();
        let d = MMapDummy { heuristics, sz: size };
        assert(d.heuristics().resident_pages() =~= Set::<usize>::empty());
        Ok((d, size))
    }

    /// Serves a fault at byte `offset`: reads what the heuristics recommend,
    /// capped at the end of the object and rounded up to whole pages,
    /// records those pages as resident, and evicts if too many are.
    pub fn handle_userfault(&mut self, offset: u64) -> (r: Result<
        (DummyPageIterator, BTreeSet<usize>),
        (),
    >)
        requires
            old(self).wf(),
            offset < old(self).spec_size(),
            old(self).spec_size() + READAHEAD_MARGIN <= usize::MAX,
        ensures
            final(self).wf(),
            final(self).spec_size() == old(self).spec_size(),
            final(self).heuristics().resident_pages().len() <= MAX_LOADED_PAGES,
            match r {
                Ok((pages, evictions)) => {
                    let h = old(self).heuristics();
                    let o: usize = offset as usize;
                    let len: int = fault_read_len(
                        o as int,
                        old(self).spec_size() as int,
                        readahead_spec(h.level1(), h.level2(), o, PAGE_SIZE),
                    );
                    let first: usize = (o / PAGE_SIZE) as usize;
                    let last: usize = ((o + len) / PAGE_SIZE as int) as usize;
                    let q1 = h.queue() + page_range(first, last);
                    &&& pages.wf()
                    &&& pages.spec_offset() == o
                    &&& pages.spec_len() == len
                    &&& pages.spec_cursor() == 0
                    &&& PAGE_SIZE <= len
                    &&& len % PAGE_SIZE as int == 0
                    &&& evictions@ == evicted_from(q1)
                    &&& final(self).heuristics().queue() == queue_after_eviction(q1)
                    &&& forall|p: usize|
                        #[trigger] final(self).heuristics().is_loaded(p) <==> ((h.is_loaded(p)
                            || first <= p < last) && !evictions@.contains(p))
                },
                Err(_) => false,
            },
    {
        let offset: usize = offset as usize;
        let actual_read_sz: usize = self.heuristics.readahead_heuristic(offset, PAGE_SIZE);
        proof {
            lemma_readahead_at_least_page(self.heuristics.level1(), self.heuristics.level2(), offset);
        }
        let len: usize = capped_read_len(offset, self.sz, actual_read_sz);
        let evictions = self.heuristics.record_pages(offset / PAGE_SIZE, (offset + len) / PAGE_SIZE);
        let pages = DummyPageIterator { offset, len, cursor: 0 };
        Ok((pages, evictions))
    }
}

} // verus!
